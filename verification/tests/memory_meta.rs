//! Loading, typed memory access, header metadata, the checksum, and
//! packed-address resolution.

use zmachine::bits::{BitAddress, ByteAddress};
use zmachine::memory::MemoryError;
use zmachine::meta::{StatusLine, Version};
use zmachine::{LoadError, ZMachine};

fn story_v3(len: usize) -> Vec<u8> {
    let mut m = vec![0u8; len];
    m[0] = 3;
    m[0x0E] = 0x00;
    m[0x0F] = 0x40;
    m
}

fn set_word(m: &mut Vec<u8>, at: usize, w: u16) {
    m[at] = (w >> 8) as u8;
    m[at + 1] = (w & 0xFF) as u8;
}

#[test]
fn too_small_story_is_refused() {
    let m = vec![3u8; 63];
    match ZMachine::new(m) {
        Err(LoadError::TooSmall(n)) => assert_eq!(n, 63),
        _ => panic!("a 63-octet image must be refused as too small"),
    }
}

#[test]
fn any_header_sized_image_loads() {
    // loading rejects nothing but a short image; a version octet outside
    // 1 through 8 reads as version 8
    let mut m = vec![0u8; 64];
    m[0] = 9;
    assert_eq!(ZMachine::new(m).unwrap().version(), Version::V8);
    let m0 = vec![0u8; 64];
    assert_eq!(ZMachine::new(m0).unwrap().version(), Version::V8);
}

#[test]
fn lengths_count_bytes_bits_words() {
    let z = ZMachine::new(story_v3(100)).unwrap();
    assert_eq!(z.len_bytes(), 100);
    assert_eq!(z.len_bits(), 800);
    assert_eq!(z.len_words(), 50);
}

#[test]
fn words_are_big_endian() {
    let mut m = story_v3(0x100);
    m[0x80] = 0x12;
    m[0x81] = 0x34;
    let z = ZMachine::new(m).unwrap();
    assert_eq!(z.word(ByteAddress(0x80)), 0x1234);
    assert_eq!(z.try_word(ByteAddress(0x80)), Some(0x1234));
    assert_eq!(z.try_word(ByteAddress(0xFF)), None);
    assert_eq!(z.byte(ByteAddress(0x80)), 0x12);
    assert_eq!(z.try_byte(ByteAddress(0x100)), None);
}

#[test]
fn bits_are_msb_first() {
    let mut m = story_v3(0x100);
    m[0x80] = 0b1000_0010;
    let z = ZMachine::new(m).unwrap();
    assert!(z.bit(BitAddress(0x80 * 8)));
    assert!(!z.bit(BitAddress(0x80 * 8 + 1)));
    assert!(z.bit(BitAddress(0x80 * 8 + 6)));
    assert!(!z.bit(BitAddress(0x80 * 8 + 7)));
}

#[test]
fn address_conversions() {
    let b = ByteAddress(3);
    assert_eq!(b.addr(), 3);
    assert_eq!(b.to_bits().addr(), 24);
    assert_eq!(BitAddress(25).to_bytes().addr(), 3);
    assert_eq!(ByteAddress::from(0x1234u16).addr(), 0x1234);
    assert_eq!(BitAddress::from(2u16).addr(), 16);
    assert_eq!(b.plus(4).addr(), 7);
    assert_eq!(b.minus(1).addr(), 2);
}

#[test]
fn writes_respect_regions() {
    let mut m = story_v3(0x100);
    set_word(&mut m, 0x0E, 0x80); // static memory starts at 0x80
    let mut z = ZMachine::new(m).unwrap();
    assert_eq!(z.write_byte(ByteAddress(0x40), 7), Ok(()));
    assert_eq!(z.byte(ByteAddress(0x40)), 7);
    assert_eq!(z.write_byte(ByteAddress(0x80), 7), Err(MemoryError::ReadOnlyMemory));
    assert_eq!(z.write_byte(ByteAddress(0x100), 7), Err(MemoryError::BadAddress));
    assert_eq!(z.write_word(ByteAddress(0x42), 0xABCD), Ok(()));
    assert_eq!(z.word(ByteAddress(0x42)), 0xABCD);
    assert_eq!(z.write_word(ByteAddress(0x7F), 1), Err(MemoryError::ReadOnlyMemory));
    assert_eq!(z.write_bit(BitAddress(0x44 * 8 + 2), true), Ok(()));
    assert!(z.bit(BitAddress(0x44 * 8 + 2)));
    assert_eq!(z.byte(ByteAddress(0x44)), 0b0010_0000);
    assert_eq!(z.write_bit(BitAddress(0x90 * 8), true), Err(MemoryError::ReadOnlyMemory));
}

#[test]
fn memory_regions_from_header() {
    let mut m = story_v3(0x200);
    set_word(&mut m, 0x0E, 0x80);
    set_word(&mut m, 0x04, 0x100);
    let z = ZMachine::new(m).unwrap();
    let dynr = z.dynamic_memory_range();
    assert_eq!((dynr.start.addr(), dynr.end.addr()), (0, 0x80));
    let st = z.static_memory_range();
    assert_eq!((st.start.addr(), st.end.addr()), (0x80, 0x200));
    let hi = z.high_memory_range();
    assert_eq!((hi.start.addr(), hi.end.addr()), (0x100, 0x200));
    assert_eq!(z.get_abbreviations_table_base().addr(), 0);
}

#[test]
fn version_and_status_line() {
    let z3 = ZMachine::new(story_v3(0x100)).unwrap();
    assert_eq!(z3.version(), Version::V3);
    assert_eq!(z3.version().number(), 3);
    assert_eq!(z3.status_line(), Some(StatusLine::ScoreTurns));
    let mut mt = story_v3(0x100);
    mt[1] = 0b0100_0000; // flags 1, bit address 9: hours and minutes
    let zt = ZMachine::new(mt).unwrap();
    assert_eq!(zt.status_line(), Some(StatusLine::HoursMins));
    let mut m4 = story_v3(0x100);
    m4[0] = 4;
    let z4 = ZMachine::new(m4).unwrap();
    assert_eq!(z4.version(), Version::V4);
    assert_eq!(z4.status_line(), None);
    let mut md = story_v3(0x100);
    md[1] = 0b0010_0000; // bit address 10: two disks
    let zd = ZMachine::new(md).unwrap();
    assert!(zd.is_two_disks());
    assert!(!z3.is_two_disks());
}

#[test]
fn checksum_sums_past_the_header() {
    let mut m = story_v3(0x100);
    set_word(&mut m, 0x1A, 0x48); // file length word: times 2 in version 3
    for i in 64..0x90 {
        m[i] = 2;
    }
    // sum of image[64..0x90] = 0x50 octets of 2 = 160
    let z = ZMachine::new(m).unwrap();
    assert_eq!(z.file_length(), 0x90);
    assert_eq!(z.calculate_checksum(), Some(160));
    let mut mb = story_v3(0x100);
    set_word(&mut mb, 0x1A, 0x100); // claims 0x200 octets: past the image
    let zb = ZMachine::new(mb).unwrap();
    assert_eq!(zb.calculate_checksum(), None);
}

#[test]
fn packed_addresses_scale_by_version() {
    let mut m = story_v3(0x100);
    set_word(&mut m, 0x28, 3); // routines offset
    set_word(&mut m, 0x2A, 5); // strings offset
    let z3 = ZMachine::new(m.clone()).unwrap();
    assert_eq!(z3.resolve_packed_address(0x21, false).addr(), 0x42);
    m[0] = 5;
    let z5 = ZMachine::new(m.clone()).unwrap();
    assert_eq!(z5.resolve_packed_address(0x21, false).addr(), 0x84);
    m[0] = 7;
    let z7 = ZMachine::new(m.clone()).unwrap();
    assert_eq!(z7.resolve_packed_address(0x21, true).addr(), 0x84 + 24);
    assert_eq!(z7.resolve_packed_address(0x21, false).addr(), 0x84 + 40);
    m[0] = 8;
    let z8 = ZMachine::new(m).unwrap();
    assert_eq!(z8.resolve_packed_address(0x21, true).addr(), 0x108);
}

#[test]
fn byte_ranges_are_copied() {
    let mut m = story_v3(0x100);
    m[0x80] = 1;
    m[0x81] = 2;
    m[0x82] = 3;
    let z = ZMachine::new(m).unwrap();
    assert_eq!(z.byte_range(ByteAddress(0x80), ByteAddress(0x83)), Some(vec![1, 2, 3]));
    assert_eq!(z.byte_range(ByteAddress(0x80), ByteAddress(0x80)), Some(vec![]));
    assert_eq!(z.byte_range(ByteAddress(0x83), ByteAddress(0x80)), None);
    assert_eq!(z.byte_range(ByteAddress(0x80), ByteAddress(0x101)), None);
}

#[test]
fn bit_ranges_are_copied() {
    let mut m = story_v3(0x100);
    m[0x80] = 0b1010_0000;
    let z = ZMachine::new(m).unwrap();
    let bits = z.bit_range(BitAddress(0x80 * 8), BitAddress(0x80 * 8 + 4)).unwrap();
    assert_eq!(bits, vec![true, false, true, false]);
    assert_eq!(
        z.bit_range(BitAddress(0x80 * 8), BitAddress(0x80 * 8)),
        Some(vec![])
    );
    assert!(z.bit_range(BitAddress(8), BitAddress(4)).is_none());
    assert!(z.bit_range(BitAddress(0), BitAddress(0x100 * 8 + 1)).is_none());
}
