//! The object tree on a constructed version-3 story: links, attributes,
//! property tables, the defaults table, and the tree checkers.

use zmachine::bits::ByteAddress;
use zmachine::ZMachine;

/// A version-3 story with an object table at 0x40: the 31 property
/// defaults, then three objects, then object 1's property table.
///
/// Object 1 is the root; objects 2 and 3 are its children (2's sibling
/// is 3).
fn story_with_objects() -> Vec<u8> {
    let mut m = vec![0u8; 0x200];
    m[0] = 3;
    m[0x0E] = 0x01;
    m[0x0F] = 0x00; // everything below 0x100 is dynamic
    let table = 0x40usize;
    m[0x0A] = 0;
    m[0x0B] = table as u8;
    // defaults: property 1 defaults to 0xBEEF
    m[table] = 0xBE;
    m[table + 1] = 0xEF;
    let objects = table + 62;
    // object 1: child 2, property table right after the three entries
    let o1 = objects;
    let props1 = objects + 3 * 9;
    m[o1 + 4] = 0; // parent
    m[o1 + 5] = 0; // sibling
    m[o1 + 6] = 2; // child
    m[o1 + 7] = (props1 >> 8) as u8;
    m[o1 + 8] = props1 as u8;
    // object 2: parent 1, sibling 3; attributes 0 and 17 set
    let o2 = objects + 9;
    m[o2] = 0b1000_0000;
    m[o2 + 2] = 0b0100_0000;
    m[o2 + 4] = 1;
    m[o2 + 5] = 3;
    m[o2 + 6] = 0;
    m[o2 + 7] = (props1 >> 8) as u8;
    m[o2 + 8] = props1 as u8;
    // object 3: parent 1
    let o3 = objects + 18;
    m[o3 + 4] = 1;
    m[o3 + 5] = 0;
    m[o3 + 6] = 0;
    m[o3 + 7] = (props1 >> 8) as u8;
    m[o3 + 8] = props1 as u8;
    // property table: the short name "abc" (one word), then properties
    // 5 (2 octets) and 2 (1 octet), descending, then the terminator
    m[props1] = 1; // name length in words
    m[props1 + 1] = 0x98; // 'a' 'b' 'c' in one end-marked word
    m[props1 + 2] = 0xE8;
    m[props1 + 3] = (1 << 5) | 5; // size 2, property 5
    m[props1 + 4] = 0xAB;
    m[props1 + 5] = 0xCD;
    m[props1 + 6] = 2; // size 1, property 2
    m[props1 + 7] = 0x77;
    m[props1 + 8] = 0; // terminator
    m
}

#[test]
fn root_object_has_no_parent() {
    let z = ZMachine::new(story_with_objects()).unwrap();
    let o1 = z.object(1).unwrap();
    assert_eq!(o1.parent_id(), None);
    assert!(o1.parent().is_none());
    assert_eq!(o1.child_id(), Some(2));
}

#[test]
fn links_walk_the_family() {
    let z = ZMachine::new(story_with_objects()).unwrap();
    assert_eq!(z.objects_count(), Some(3));
    let o2 = z.object(2).unwrap();
    assert_eq!(o2.parent_id(), Some(1));
    assert_eq!(o2.sibling_id(), Some(3));
    assert_eq!(o2.child_id(), None);
    let p = o2.parent().unwrap();
    assert_eq!(p.child_id(), Some(2));
    let s = o2.sibling().unwrap();
    assert_eq!(s.parent_id(), Some(1));
    let c = p.child().unwrap();
    assert_eq!(c.sibling_id(), Some(3));
}

#[test]
fn attributes_are_msb_first() {
    let z = ZMachine::new(story_with_objects()).unwrap();
    let o2 = z.object(2).unwrap();
    assert!(o2.attribute(0));
    assert!(!o2.attribute(1));
    assert!(o2.attribute(17));
    assert!(!o2.attribute(31));
    assert_eq!(z.object_attribute_count(), 32);
    assert_eq!(z.object_property_count(), 31);
    assert_eq!(z.max_objects_for_version(), 255);
    assert_eq!(z.object_entry_size(), 9);
}

#[test]
fn properties_scan_and_lookup() {
    let z = ZMachine::new(story_with_objects()).unwrap();
    let o1 = z.object(1).unwrap();
    assert_eq!(o1.property_value(5), Some(vec![0xAB, 0xCD]));
    assert_eq!(o1.property_value(2), Some(vec![0x77]));
    assert_eq!(o1.property_value(3), None);
    assert_eq!(o1.property_count(), Some(2));
    let entries = o1.property_entries().unwrap();
    assert_eq!(entries.len(), 2);
    assert_eq!(entries[0].0, 5);
    assert_eq!(entries[0].2, 2);
    assert_eq!(entries[1].0, 2);
    assert_eq!(entries[1].2, 1);
    assert_eq!(o1.properties_conformant(), Some(true));
    assert_eq!(o1.read_name(), Some(String::from("abc")));
}

#[test]
fn default_property_fills_in() {
    let z = ZMachine::new(story_with_objects()).unwrap();
    let o1 = z.object(1).unwrap();
    assert_eq!(o1.property_value_or_default(5), Some(vec![0xAB, 0xCD]));
    assert_eq!(o1.property_value_or_default(1), Some(vec![0xBE, 0xEF]));
    assert_eq!(z.default_property(1), Some(vec![0xBE, 0xEF]));
    assert_eq!(z.default_property(2), Some(vec![0, 0]));
}

#[test]
fn ascending_property_ids_are_nonconformant() {
    let mut m = story_with_objects();
    // swap the two property headers so the IDs ascend: 2 before 5
    let props1 = 0x40 + 62 + 27;
    m[props1 + 3] = 2;
    m[props1 + 4] = 0x77;
    m[props1 + 5] = (1 << 5) | 5;
    m[props1 + 6] = 0xAB;
    m[props1 + 7] = 0xCD;
    m[props1 + 8] = 0;
    let z = ZMachine::new(m).unwrap();
    let o1 = z.object(1).unwrap();
    assert_eq!(o1.properties_conformant(), Some(false));
    // descending search stops early, so property 5 now looks unset
    assert_eq!(o1.property_value(5), None);
}

#[test]
fn children_chains_are_checked() {
    let z = ZMachine::new(story_with_objects()).unwrap();
    assert_eq!(z.is_in_children_chain(1, 2), Some(true));
    assert_eq!(z.is_in_children_chain(1, 3), Some(true));
    assert_eq!(z.tree_conformant(), Some(true));
    // break the tree: object 2 claims parent 1 but leaves the chain
    let mut m = story_with_objects();
    let o1 = 0x40 + 62;
    m[o1 + 6] = 3; // object 1's child chain is now just object 3
    let zb = ZMachine::new(m).unwrap();
    assert_eq!(zb.is_in_children_chain(1, 2), Some(false));
    assert_eq!(zb.tree_conformant(), Some(false));
}

#[test]
fn object_bounds_are_enforced() {
    let z = ZMachine::new(story_with_objects()).unwrap();
    assert!(z.object(0).is_none());
    assert!(z.object(3).is_none()); // the count itself is exclusive
    assert!(z.object_unchecked(3).is_some());
    assert!(z.object_unchecked(0).is_none());
    assert!(z.object_unchecked(5000).is_none());
    assert_eq!(z.object_table_base(), ByteAddress(0x40));
    assert_eq!(z.object_table_objects_start(), ByteAddress(0x40 + 62));
}

#[test]
fn short_names_honor_the_length_byte() {
    // a zero-count name is the empty string, read without decoding
    let mut m0 = story_with_objects();
    let props1 = 0x40 + 62 + 27;
    m0[props1] = 0;
    let z0 = ZMachine::new(m0).unwrap();
    assert_eq!(z0.object(1).unwrap().read_name(), Some(String::new()));
    // a name whose decode does not span the counted words is malformed
    let mut m2 = story_with_objects();
    m2[props1] = 2; // claims two words, but the string ends after one
    let z2 = ZMachine::new(m2).unwrap();
    assert_eq!(z2.object(1).unwrap().read_name(), None);
    let mut s = String::from("kept");
    assert!(!z2.object(1).unwrap().copy_name(&mut s));
    assert_eq!(s, "kept");
}
