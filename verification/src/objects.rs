//! The object tree: attributes, parent/sibling/child links, property
//! tables, and the defaults table.
//!
//! Objects are 1-based records in the object table; 0 denotes "no
//! object". Each object's property table holds a Z-string short name and
//! properties in strictly descending property-ID order, closed by a zero
//! terminator. The number of objects is not stored; it is inferred from
//! where the first property table begins, which is an accepted convention
//! but best-effort.

use vstd::prelude::*;

use crate::bits::{BitAddress, ByteAddress};
use crate::consts;
use crate::memory::{bit_at, word_at};
use crate::meta::version_number;
use crate::text::spec_zstring;
use crate::ZMachine;

verus! {

/// The base byte address of the object table (the property defaults).
pub open spec fn obj_table_base(mem: Seq<u8>) -> int {
    word_at(mem, consts::OBJECT_TABLE_LOCATION as int) as int
}

/// How many properties an object can have in this story version.
pub open spec fn obj_prop_count(mem: Seq<u8>) -> int {
    if version_number(mem) > 3 {
        63
    } else {
        31
    }
}

/// How many attributes an object has in this story version.
pub open spec fn obj_attr_count(mem: Seq<u8>) -> int {
    if version_number(mem) > 3 {
        48
    } else {
        32
    }
}

/// The highest object ID this story version can address.
pub open spec fn obj_max_objects(mem: Seq<u8>) -> int {
    if version_number(mem) > 3 {
        65535
    } else {
        255
    }
}

/// The size in octets of one object entry.
pub open spec fn obj_entry_size(mem: Seq<u8>) -> int {
    if version_number(mem) > 3 {
        14
    } else {
        9
    }
}

/// The byte address where the object entries begin, after the property
/// defaults.
pub open spec fn obj_objects_start(mem: Seq<u8>) -> int {
    obj_table_base(mem) + obj_prop_count(mem) * 2
}

/// The byte address of object `id`'s entry (IDs are 1-based).
pub open spec fn obj_entry_addr(mem: Seq<u8>, id: int) -> int {
    obj_objects_start(mem) + obj_entry_size(mem) * (id - 1)
}

/// The parent object ID in object `id`'s entry; 0 is "no parent".
pub open spec fn obj_parent(mem: Seq<u8>, id: int) -> int {
    if version_number(mem) > 3 {
        word_at(mem, obj_entry_addr(mem, id) + 6) as int
    } else {
        mem[obj_entry_addr(mem, id) + 4] as int
    }
}

/// The sibling object ID in object `id`'s entry; 0 is "no sibling".
pub open spec fn obj_sibling(mem: Seq<u8>, id: int) -> int {
    if version_number(mem) > 3 {
        word_at(mem, obj_entry_addr(mem, id) + 8) as int
    } else {
        mem[obj_entry_addr(mem, id) + 5] as int
    }
}

/// The child object ID in object `id`'s entry; 0 is "no child".
pub open spec fn obj_child(mem: Seq<u8>, id: int) -> int {
    if version_number(mem) > 3 {
        word_at(mem, obj_entry_addr(mem, id) + 10) as int
    } else {
        mem[obj_entry_addr(mem, id) + 6] as int
    }
}

/// The byte address of object `id`'s property table.
pub open spec fn obj_prop_table(mem: Seq<u8>, id: int) -> int {
    if version_number(mem) > 3 {
        word_at(mem, obj_entry_addr(mem, id) + 12) as int
    } else {
        word_at(mem, obj_entry_addr(mem, id) + 7) as int
    }
}

/// The inferred number of objects: the gap between the object array and
/// object 1's property table, divided by the entry size. Best effort.
pub open spec fn spec_objects_count(mem: Seq<u8>) -> int {
    (obj_prop_table(mem, 1) - obj_objects_start(mem)) / obj_entry_size(mem)
}

/// The byte address where object `id`'s properties begin: past the short
/// name, whose length byte counts Z-string words.
pub open spec fn obj_props_start(mem: Seq<u8>, id: int) -> int {
    obj_prop_table(mem, id) + 1 + 2 * mem[obj_prop_table(mem, id)]
}

/// The short name of object `id`: the Z-string after the length byte,
/// which gives the name's Z-word count. The empty name has count 0 and no
/// string at all; a name whose decode does not consume exactly that many
/// words, like one running past the image end, is malformed ([`None`]).
pub open spec fn obj_name(mem: Seq<u8>, id: int) -> Option<Seq<char>> {
    let tbl = obj_prop_table(mem, id);
    if tbl >= mem.len() {
        None
    } else {
        let count = mem[tbl] as int;
        if count == 0 {
            Some(Seq::<char>::empty())
        } else {
            match spec_zstring(mem, tbl + 1) {
                Some((t, k)) => if k == count {
                    Some(t)
                } else {
                    None
                },
                None => None,
            }
        }
    }
}

/// One property entry decoded at byte address `p`: its ID, the address
/// and size of its data, and the address of the next entry.
pub open spec fn prop_entry(mem: Seq<u8>, p: int) -> (u8, int, int, int) {
    if version_number(mem) <= 3 {
        let b = mem[p];
        (b & 0x1Fu8, p + 1, (b >> 5u8) + 1, p + 1 + ((b >> 5u8) + 1))
    } else {
        let b1 = mem[p];
        if b1 & 0x80u8 == 0x80u8 {
            let b2 = mem[p + 1];
            let sz = if b2 & 0x3Fu8 == 0u8 {
                64int
            } else {
                (b2 & 0x3Fu8) as int
            };
            (b1 & 0x3Fu8, p + 2, sz, p + 2 + sz)
        } else {
            let sz = if b1 & 0x40u8 == 0x40u8 {
                2int
            } else {
                1int
            };
            (b1 & 0x3Fu8, p + 1, sz, p + 1 + sz)
        }
    }
}

/// Scans the property entries that start at byte address `p`, to the zero
/// terminator. Yields each entry's ID, data address and size, or [`None`]
/// when the table runs past the image end.
pub open spec fn prop_scan(mem: Seq<u8>, p: int) -> Option<Seq<(u8, int, int)>>
    decreases mem.len() - p,
{
    if p < 0 || p >= mem.len() {
        None
    } else if mem[p] == 0 {
        Some(Seq::<(u8, int, int)>::empty())
    } else {
        let (id, data, size, next) = prop_entry(mem, p);
        if data + size > mem.len() {
            None
        } else {
            match prop_scan(mem, next) {
                None => None,
                Some(rest) => Some(seq![(id, data, size)] + rest),
            }
        }
    }
}

/// Whether a scanned property table lists its IDs in strictly descending
/// order.
pub open spec fn props_descending(es: Seq<(u8, int, int)>) -> bool {
    forall|i: int, j: int| 0 <= i < j < es.len() ==> #[trigger] es[i].0 > #[trigger] es[j].0
}

/// Looks a property up in the entries at byte address `p`: entries are in
/// descending ID order, so the search stops at the first entry whose ID
/// is not above `pid` and succeeds only on equality. The outer [`None`]
/// is a fault (the table runs past the image end); the inner option tells
/// whether the property is present, with its data address and size.
pub open spec fn prop_lookup(mem: Seq<u8>, p: int, pid: int) -> Option<Option<(int, int)>>
    decreases mem.len() - p,
{
    if p < 0 || p >= mem.len() {
        None
    } else if mem[p] == 0 {
        Some(None)
    } else {
        let (id, data, size, next) = prop_entry(mem, p);
        if id <= pid {
            if id == pid {
                if data + size <= mem.len() {
                    Some(Some((data, size)))
                } else {
                    None
                }
            } else {
                Some(None)
            }
        } else if next > mem.len() {
            None
        } else {
            prop_lookup(mem, next, pid)
        }
    }
}

/// Whether object `id`'s entry can be read at all: a non-zero ID whose
/// entry lies inside the image.
pub open spec fn obj_readable(mem: Seq<u8>, id: int) -> bool {
    id >= 1 && obj_entry_addr(mem, id) + obj_entry_size(mem) <= mem.len() && obj_entry_addr(
        mem,
        id,
    ) + obj_entry_size(mem) <= usize::MAX
}

/// Whether the object count can be inferred at all: object 1's entry lies
/// inside the image and its property table does not sit below the object
/// array.
pub open spec fn objects_count_inferable(mem: Seq<u8>) -> bool {
    &&& obj_entry_addr(mem, 1) + obj_entry_size(mem) <= mem.len()
    &&& obj_prop_table(mem, 1) >= obj_objects_start(mem)
}

/// Walks the sibling chain from object `from` looking for `o`, following
/// at most `fuel` links: the decided membership, or [`None`] when an
/// entry on the chain lies past the image end or the chain is still going
/// when the fuel runs out.
pub open spec fn chain_walk(mem: Seq<u8>, from: int, o: int, fuel: nat) -> Option<bool>
    decreases fuel,
{
    if fuel == 0 {
        None
    } else if from == 0 {
        Some(false)
    } else if from == o {
        Some(true)
    } else if !obj_readable(mem, from) {
        None
    } else {
        chain_walk(mem, obj_sibling(mem, from), o, (fuel - 1) as nat)
    }
}

/// A decided chain walk agrees with plain chain membership.
pub proof fn lemma_chain_walk_decides(mem: Seq<u8>, from: int, o: int, fuel: nat)
    requires
        chain_walk(mem, from, o, fuel) is Some,
    ensures
        chain_walk(mem, from, o, fuel) == Some(chain_contains(mem, from, o, fuel)),
    decreases fuel,
{
    if fuel > 0 && from != 0 && from != o && obj_readable(mem, from) {
        lemma_chain_walk_decides(mem, obj_sibling(mem, from), o, (fuel - 1) as nat);
    }
}

/// Whether object `o` occurs in the sibling chain that starts at object
/// `from`, following at most `fuel` links.
pub open spec fn chain_contains(mem: Seq<u8>, from: int, o: int, fuel: nat) -> bool
    decreases fuel,
{
    if fuel == 0 || from == 0 {
        false
    } else if from == o {
        true
    } else {
        chain_contains(mem, obj_sibling(mem, from), o, (fuel - 1) as nat)
    }
}

/// Represents a game object: a handle on one entry of the object table.
pub struct Object<'a> {
    pub(crate) id: usize,
    pub(crate) start: ByteAddress,
    pub(crate) machine: &'a ZMachine,
}

impl<'a> Object<'a> {
    /// The story image this object lives in.
    pub closed spec fn mem(self) -> Seq<u8> {
        self.machine.mem()
    }

    /// The byte address of this object's entry.
    pub closed spec fn start_addr(self) -> int {
        self.start.0 as int
    }

    /// The 1-based ID of this object.
    pub closed spec fn obj_id(self) -> int {
        self.id as int
    }

    /// A usable object handle: a well-formed machine, an ID of at least
    /// 1, and an entry that lies entirely inside the image.
    pub closed spec fn wf(self) -> bool {
        &&& self.machine.wf()
        &&& self.obj_id() >= 1
        &&& self.start_addr() == obj_entry_addr(self.mem(), self.obj_id())
        &&& self.start_addr() + obj_entry_size(self.mem()) <= self.mem().len()
        &&& 0 <= self.start_addr()
    }
}

impl ZMachine {
    /// Returns the base of the object table (i.e. the start of the
    /// property defaults header).
    pub fn object_table_base(&self) -> (r: ByteAddress)
        requires
            self.wf(),
        ensures
            r.0 == obj_table_base(self.mem()),
    {
        ByteAddress(self.word(ByteAddress(consts::OBJECT_TABLE_LOCATION)) as usize)
    }

    /// Returns the number of properties an object can have in this story
    /// version.
    pub fn object_property_count(&self) -> (r: usize)
        requires
            self.wf(),
        ensures
            r == obj_prop_count(self.mem()),
    {
        if self.version().number() > 3 {
            63
        } else {
            31
        }
    }

    /// Returns the number of attributes an object has in this story
    /// version.
    pub fn object_attribute_count(&self) -> (r: usize)
        requires
            self.wf(),
        ensures
            r == obj_attr_count(self.mem()),
    {
        if self.version().number() > 3 {
            48
        } else {
            32
        }
    }

    /// Returns the maximum number of objects in this story version.
    pub fn max_objects_for_version(&self) -> (r: usize)
        requires
            self.wf(),
        ensures
            r == obj_max_objects(self.mem()),
    {
        if self.version().number() > 3 {
            65535
        } else {
            255
        }
    }

    /// Returns the size in octets of one object entry in this story
    /// version.
    pub fn object_entry_size(&self) -> (r: usize)
        requires
            self.wf(),
        ensures
            r == obj_entry_size(self.mem()),
    {
        if self.version().number() > 3 {
            14
        } else {
            9
        }
    }

    /// Returns the byte address where the object entries begin, after the
    /// property defaults.
    pub fn object_table_objects_start(&self) -> (r: ByteAddress)
        requires
            self.wf(),
        ensures
            r.0 == obj_objects_start(self.mem()),
    {
        let base = self.object_table_base();
        ByteAddress(base.addr() + self.object_property_count() * 2)
    }

    /// Returns the number of objects in play, inferred from the gap
    /// between the object array and object 1's property table; [`None`]
    /// when object 1's entry lies out of bounds or its property table
    /// sits below the object array.
    ///
    /// This is an educated guess based on the locations of certain
    /// structures. A story could lay out memory such that this fails, but
    /// no known stories do.
    pub fn objects_count(&self) -> (r: Option<usize>)
        requires
            self.wf(),
        ensures
            match r {
                Some(n) => {
                    &&& obj_entry_addr(self.mem(), 1) + obj_entry_size(self.mem())
                        <= self.mem().len()
                    &&& obj_prop_table(self.mem(), 1) >= obj_objects_start(self.mem())
                    &&& n == spec_objects_count(self.mem())
                },
                None => obj_entry_addr(self.mem(), 1) + obj_entry_size(self.mem())
                    > self.mem().len() || obj_prop_table(self.mem(), 1) < obj_objects_start(
                    self.mem(),
                ),
            },
    {
        let o1 = match self.object_unchecked(1) {
            Some(o) => o,
            None => {
                return None;
            },
        };
        let tbl = o1.property_table_location();
        let start = self.object_table_objects_start();
        if tbl.addr() < start.addr() {
            return None;
        }
        Some((tbl.addr() - start.addr()) / self.object_entry_size())
    }

    /// Returns the default value for a property (two octets), or [`None`]
    /// when the defaults table runs past the image end. Property IDs are
    /// 1-based.
    pub fn default_property(&self, property_id: usize) -> (r: Option<Vec<u8>>)
        requires
            self.wf(),
            1 <= property_id <= obj_prop_count(self.mem()),
        ensures
            match r {
                Some(v) => {
                    &&& obj_table_base(self.mem()) + 2 * property_id <= self.mem().len()
                    &&& v@ == self.mem().subrange(
                        obj_table_base(self.mem()) + 2 * (property_id - 1),
                        obj_table_base(self.mem()) + 2 * property_id,
                    )
                },
                None => obj_table_base(self.mem()) + 2 * property_id > self.mem().len(),
            },
    {
        let base = self.object_table_base();
        let lo = base.addr() + 2 * (property_id - 1);
        if lo + 2 > self.memory.len() {
            return None;
        }
        let mut v: Vec<u8> = Vec::new();
        v.push(self.memory[lo]);
        v.push(self.memory[lo + 1]);
        proof {
            assert(v@ =~= self.mem().subrange(lo as int, lo + 2));
        }
        Some(v)
    }

    /// Returns an object with a particular ID without holding it against
    /// the inferred object count; [`None`] when the ID is 0 or the entry
    /// lies past the image end.
    pub fn object_unchecked<'a>(&'a self, id: usize) -> (r: Option<Object<'a>>)
        requires
            self.wf(),
        ensures
            match r {
                Some(o) => {
                    &&& id >= 1
                    &&& o.wf()
                    &&& o.mem() == self.mem()
                    &&& o.obj_id() == id
                    &&& o.start_addr() == obj_entry_addr(self.mem(), id as int)
                    &&& obj_entry_addr(self.mem(), id as int) + obj_entry_size(self.mem())
                        <= self.mem().len()
                },
                None => id == 0 || obj_entry_addr(self.mem(), id as int) + obj_entry_size(
                    self.mem(),
                ) > self.mem().len(),
            },
    {
        if id == 0 {
            return None;
        }
        let n = self.memory.len();
        let start = self.object_table_objects_start();
        let sz = self.object_entry_size();
        let q = (usize::MAX - start.addr()) / sz;
        if id - 1 > q {
            proof {
                assert((id - 1) * sz > q * sz && (q + 1) * sz >= q * sz + sz) by (nonlinear_arith)
                    requires
                        id - 1 > q,
                        sz >= 1,
                ;
                assert(q * sz + sz > usize::MAX - start.0);
            }
            return None;
        }
        proof {
            assert((id - 1) * sz <= q * sz) by (nonlinear_arith)
                requires
                    id - 1 <= q,
                    sz >= 1,
            ;
            assert(q * sz <= usize::MAX - start.0);
        }
        let addr = start.addr() + sz * (id - 1);
        if addr >= n || sz > n - addr {
            return None;
        }
        Some(Object { id, start: ByteAddress(addr), machine: self })
    }

    /// Returns the object with a particular ID, held against the inferred
    /// object count: the ID must be at least 1 and below the count, and
    /// the entry must lie inside the image; otherwise [`None`].
    pub fn object<'a>(&'a self, id: usize) -> (r: Option<Object<'a>>)
        requires
            self.wf(),
        ensures
            match r {
                Some(o) => {
                    &&& 1 <= id < spec_objects_count(self.mem())
                    &&& o.wf()
                    &&& o.mem() == self.mem()
                    &&& o.start_addr() == obj_entry_addr(self.mem(), id as int)
                },
                None => true,
            },
            r is None ==> id == 0 || obj_entry_addr(self.mem(), 1) + obj_entry_size(self.mem())
                > self.mem().len() || obj_prop_table(self.mem(), 1) < obj_objects_start(self.mem())
                || id >= spec_objects_count(self.mem()) || obj_entry_addr(self.mem(), id as int)
                + obj_entry_size(self.mem()) > self.mem().len(),
    {
        let count = match self.objects_count() {
            Some(n) => n,
            None => {
                return None;
            },
        };
        if id == 0 || id >= count {
            return None;
        }
        self.object_unchecked(id)
    }
}

impl<'a> Object<'a> {
    /// Returns a particular attribute bit from this object. Attribute 0
    /// is the most significant bit of the first attribute octet.
    pub fn attribute(&self, attribute_id: usize) -> (r: bool)
        requires
            self.wf(),
            attribute_id < obj_attr_count(self.mem()),
            self.mem().len() * 8 <= usize::MAX,
        ensures
            r == bit_at(self.mem(), self.start_addr() * 8 + attribute_id),
    {
        let base = self.start.addr();
        proof {
            assert(base * 8 + attribute_id < self.mem().len() * 8) by (nonlinear_arith)
                requires
                    attribute_id < obj_attr_count(self.mem()),
                    obj_attr_count(self.mem()) <= 48,
                    obj_attr_count(self.mem()) == 32 ==> base + 9 <= self.mem().len(),
                    obj_attr_count(self.mem()) == 48 ==> base + 14 <= self.mem().len(),
            ;
        }
        self.machine.bit(BitAddress(base * 8 + attribute_id))
    }

    /// Returns the object ID of this object's parent, or [`None`] if this
    /// object has no parent.
    pub fn parent_id(&self) -> (r: Option<usize>)
        requires
            self.wf(),
        ensures
            match r {
                Some(p) => p == obj_parent(self.mem(), self.obj_id()) && p != 0,
                None => obj_parent(self.mem(), self.obj_id()) == 0,
            },
    {
        let n = self.machine.len_bytes();
        let id = if self.machine.version().number() > 3 {
            self.machine.word(self.start.plus(6)) as usize
        } else {
            self.machine.byte(self.start.plus(4)) as usize
        };
        if id == 0 {
            None
        } else {
            Some(id)
        }
    }

    /// Returns this object's parent, or [`None`] if it has none or its
    /// entry lies past the image end.
    pub fn parent(&self) -> (r: Option<Object<'a>>)
        requires
            self.wf(),
        ensures
            match r {
                Some(o) => {
                    &&& obj_parent(self.mem(), self.obj_id()) != 0
                    &&& o.wf()
                    &&& o.mem() == self.mem()
                    &&& o.start_addr() == obj_entry_addr(
                        self.mem(),
                        obj_parent(self.mem(), self.obj_id()),
                    )
                },
                None => obj_parent(self.mem(), self.obj_id()) == 0 || obj_entry_addr(
                    self.mem(),
                    obj_parent(self.mem(), self.obj_id()),
                ) + obj_entry_size(self.mem()) > self.mem().len(),
            },
    {
        match self.parent_id() {
            Some(id) => self.machine.object_unchecked(id),
            None => None,
        }
    }

    /// Returns the object ID of this object's sibling, or [`None`] if
    /// this object has no sibling.
    pub fn sibling_id(&self) -> (r: Option<usize>)
        requires
            self.wf(),
        ensures
            match r {
                Some(p) => p == obj_sibling(self.mem(), self.obj_id()) && p != 0,
                None => obj_sibling(self.mem(), self.obj_id()) == 0,
            },
    {
        let n = self.machine.len_bytes();
        let id = if self.machine.version().number() > 3 {
            self.machine.word(self.start.plus(8)) as usize
        } else {
            self.machine.byte(self.start.plus(5)) as usize
        };
        if id == 0 {
            None
        } else {
            Some(id)
        }
    }

    /// Returns this object's sibling, or [`None`] if it has none or its
    /// entry lies past the image end.
    pub fn sibling(&self) -> (r: Option<Object<'a>>)
        requires
            self.wf(),
        ensures
            match r {
                Some(o) => {
                    &&& obj_sibling(self.mem(), self.obj_id()) != 0
                    &&& o.wf()
                    &&& o.mem() == self.mem()
                    &&& o.start_addr() == obj_entry_addr(
                        self.mem(),
                        obj_sibling(self.mem(), self.obj_id()),
                    )
                },
                None => obj_sibling(self.mem(), self.obj_id()) == 0 || obj_entry_addr(
                    self.mem(),
                    obj_sibling(self.mem(), self.obj_id()),
                ) + obj_entry_size(self.mem()) > self.mem().len(),
            },
    {
        match self.sibling_id() {
            Some(id) => self.machine.object_unchecked(id),
            None => None,
        }
    }

    /// Returns the object ID of this object's child, or [`None`] if this
    /// object has no child.
    pub fn child_id(&self) -> (r: Option<usize>)
        requires
            self.wf(),
        ensures
            match r {
                Some(p) => p == obj_child(self.mem(), self.obj_id()) && p != 0,
                None => obj_child(self.mem(), self.obj_id()) == 0,
            },
    {
        let n = self.machine.len_bytes();
        let id = if self.machine.version().number() > 3 {
            self.machine.word(self.start.plus(10)) as usize
        } else {
            self.machine.byte(self.start.plus(6)) as usize
        };
        if id == 0 {
            None
        } else {
            Some(id)
        }
    }

    /// Returns this object's child, or [`None`] if it has none or its
    /// entry lies past the image end.
    pub fn child(&self) -> (r: Option<Object<'a>>)
        requires
            self.wf(),
        ensures
            match r {
                Some(o) => {
                    &&& obj_child(self.mem(), self.obj_id()) != 0
                    &&& o.wf()
                    &&& o.mem() == self.mem()
                    &&& o.start_addr() == obj_entry_addr(
                        self.mem(),
                        obj_child(self.mem(), self.obj_id()),
                    )
                },
                None => obj_child(self.mem(), self.obj_id()) == 0 || obj_entry_addr(
                    self.mem(),
                    obj_child(self.mem(), self.obj_id()),
                ) + obj_entry_size(self.mem()) > self.mem().len(),
            },
    {
        match self.child_id() {
            Some(id) => self.machine.object_unchecked(id),
            None => None,
        }
    }

    /// Returns the address of this object's property table.
    pub fn property_table_location(&self) -> (r: ByteAddress)
        requires
            self.wf(),
        ensures
            r.0 == obj_prop_table(self.mem(), self.obj_id()),
    {
        let n = self.machine.len_bytes();
        if self.machine.version().number() > 3 {
            ByteAddress(self.machine.word(self.start.plus(12)) as usize)
        } else {
            ByteAddress(self.machine.word(self.start.plus(7)) as usize)
        }
    }
}

/// Strict descent of adjacent scanned property IDs carries to every
/// pair: the order is transitive.
proof fn lemma_descending_from_adjacent(es: Seq<(u8, int, int)>)
    requires
        forall|k: int| 0 <= k < es.len() - 1 ==> #[trigger] es[k].0 > es[k + 1].0,
    ensures
        props_descending(es),
{
    assert forall|i: int, j: int| 0 <= i < j < es.len() implies #[trigger] es[i].0
        > #[trigger] es[j].0 by {
        lemma_descending_step(es, i, j);
    }
}

/// Walks the adjacent descents from `i` up to `j`.
proof fn lemma_descending_step(es: Seq<(u8, int, int)>, i: int, j: int)
    requires
        0 <= i < j < es.len(),
        forall|k: int| 0 <= k < es.len() - 1 ==> #[trigger] es[k].0 > es[k + 1].0,
    ensures
        es[i].0 > es[j].0,
    decreases j - i,
{
    if i + 1 < j {
        lemma_descending_step(es, i + 1, j);
    }
}

impl<'a> Object<'a> {
    /// Returns the byte address where this object's properties begin,
    /// past the Z-string short name; or [`None`] when the property table
    /// itself lies past the image end.
    pub fn properties_start(&self) -> (r: Option<ByteAddress>)
        requires
            self.wf(),
        ensures
            match r {
                Some(p) => obj_prop_table(self.mem(), self.obj_id()) < self.mem().len() && p.0
                    == obj_props_start(self.mem(), self.obj_id()),
                None => obj_prop_table(self.mem(), self.obj_id()) >= self.mem().len(),
            },
    {
        let tbl = self.property_table_location();
        match self.machine.try_byte(tbl) {
            Some(text_len) => Some(ByteAddress(tbl.addr() + 1 + 2 * (text_len as usize))),
            None => None,
        }
    }

    /// Copies the short name of this object into the provided buffer: the
    /// Z-string after the length byte, which must occupy exactly the
    /// Z-word count that byte gives (so a zero count is the empty name).
    /// Returns false, leaving the buffer unchanged, on a malformed name.
    pub fn copy_name(&self, string: &mut String) -> (r: bool)
        requires
            self.wf(),
        ensures
            r == obj_name(self.mem(), self.obj_id()) is Some,
            match obj_name(self.mem(), self.obj_id()) {
                Some(t) => final(string)@ == old(string)@ + t,
                None => final(string)@ == old(string)@,
            },
    {
        let tbl = self.property_table_location();
        let count = match self.machine.try_byte(tbl) {
            Some(b) => b as usize,
            None => {
                return false;
            },
        };
        if count == 0 {
            proof {
                assert(old(string)@ + Seq::<char>::empty() =~= old(string)@);
            }
            return true;
        }
        match self.machine.read_zstring(tbl.plus(1)) {
            Some((s, consumed)) => {
                if consumed == 2 * count {
                    string.append(s.as_str());
                    true
                } else {
                    false
                }
            },
            None => false,
        }
    }

    /// Returns the short name of this object, or [`None`] on a malformed
    /// name: a property table past the image end, or a name Z-string that
    /// does not occupy exactly the Z-word count its length byte gives.
    pub fn read_name(&self) -> (r: Option<String>)
        requires
            self.wf(),
        ensures
            match r {
                Some(s) => obj_name(self.mem(), self.obj_id()) matches Some(t) && s@ == t,
                None => obj_name(self.mem(), self.obj_id()) is None,
            },
    {
        let mut s = String::new();
        if self.copy_name(&mut s) {
            Some(s)
        } else {
            None
        }
    }

    /// Scans this object's property table into a list of entries, each an
    /// ID with its data address and size, in table order; or [`None`]
    /// when the table runs past the image end before its terminator.
    pub fn property_entries(&self) -> (r: Option<Vec<(u8, usize, usize)>>)
        requires
            self.wf(),
        ensures
            match r {
                Some(v) => {
                    &&& obj_prop_table(self.mem(), self.obj_id()) < self.mem().len()
                    &&& prop_scan(self.mem(), obj_props_start(self.mem(), self.obj_id()))
                        matches Some(es) && v@.len() == es.len() && (forall|i: int|
                        0 <= i < es.len() ==> #[trigger] v@[i].0 == es[i].0 && v@[i].1 == es[i].1
                            && v@[i].2 == es[i].2)
                },
                None => obj_prop_table(self.mem(), self.obj_id()) >= self.mem().len() || prop_scan(
                    self.mem(),
                    obj_props_start(self.mem(), self.obj_id()),
                ) is None,
            },
    {
        let ghost m = self.mem();
        let start = match self.properties_start() {
            Some(p) => p,
            None => {
                return None;
            },
        };
        let n = self.machine.len_bytes();
        let v3 = self.machine.version().number() <= 3;
        let mut p: usize = start.addr();
        let mut v: Vec<(u8, usize, usize)> = Vec::new();
        loop
            invariant
                self.wf(),
                m == self.mem(),
                n == m.len(),
                v3 == (version_number(m) <= 3),
                start.0 == obj_props_start(m, self.obj_id()),
                obj_prop_table(m, self.obj_id()) < m.len(),
                prop_scan(m, start.0 as int) == (match prop_scan(m, p as int) {
                    None => None::<Seq<(u8, int, int)>>,
                    Some(rest) => Some(
                        Seq::new(v@.len(), |i: int| (v@[i].0, v@[i].1 as int, v@[i].2 as int))
                            + rest,
                    ),
                }),
            decreases m.len() - p,
        {
            if p >= n {
                return None;
            }
            let b = self.machine.memory[p];
            if b == 0 {
                proof {
                    let es0 = Seq::new(
                        v@.len(),
                        |i: int| (v@[i].0, v@[i].1 as int, v@[i].2 as int),
                    );
                    assert(es0 + Seq::<(u8, int, int)>::empty() =~= es0);
                }
                return Some(v);
            }
            let (id, data, size) = if v3 {
                (b & 0x1F, p + 1, ((b >> 5) as usize) + 1)
            } else {
                if b & 0x80 == 0x80 {
                    if p + 1 >= n {
                        proof {
                            assert(prop_entry(m, p as int).1 == p + 2);
                            assert(prop_entry(m, p as int).2 >= 1);
                        }
                        return None;
                    }
                    let b2 = self.machine.memory[p + 1];
                    let sz = if b2 & 0x3F == 0 {
                        64
                    } else {
                        (b2 & 0x3F) as usize
                    };
                    (b & 0x3F, p + 2, sz)
                } else {
                    let sz: usize = if b & 0x40 == 0x40 {
                        2
                    } else {
                        1
                    };
                    (b & 0x3F, p + 1, sz)
                }
            };
            if data >= n || size > n - data {
                return None;
            }
            let ghost v0 = v@;
            v.push((id, data, size));
            proof {
                let es_old = Seq::new(v0.len(), |i: int| (v0[i].0, v0[i].1 as int, v0[i].2 as int));
                let es_new = Seq::new(
                    v@.len(),
                    |i: int| (v@[i].0, v@[i].1 as int, v@[i].2 as int),
                );
                assert(prop_entry(m, p as int) == (id, data as int, size as int, (data + size) as int));
                assert(es_new =~= es_old + seq![(id, data as int, size as int)]);
                if prop_scan(m, (data + size) as int) is Some {
                    let rest = prop_scan(m, (data + size) as int)->Some_0;
                    assert((es_old + (seq![(id, data as int, size as int)] + rest)) =~= (es_new
                        + rest));
                }
            }
            p = data + size;
        }
    }

    /// Returns the number of properties set on this object, or [`None`]
    /// when the table runs past the image end before its terminator.
    pub fn property_count(&self) -> (r: Option<usize>)
        requires
            self.wf(),
        ensures
            match r {
                Some(c) => prop_scan(self.mem(), obj_props_start(self.mem(), self.obj_id()))
                    matches Some(es) && c == es.len(),
                None => obj_prop_table(self.mem(), self.obj_id()) >= self.mem().len() || prop_scan(
                    self.mem(),
                    obj_props_start(self.mem(), self.obj_id()),
                ) is None,
            },
    {
        match self.property_entries() {
            Some(v) => Some(v.len()),
            None => None,
        }
    }

    /// Decides whether this object's property table is conformant: its
    /// IDs strictly descending (the zero terminator is already certified
    /// by the scan itself succeeding). [`None`] when the table runs past
    /// the image end.
    pub fn properties_conformant(&self) -> (r: Option<bool>)
        requires
            self.wf(),
        ensures
            match r {
                Some(b) => prop_scan(self.mem(), obj_props_start(self.mem(), self.obj_id()))
                    matches Some(es) && b == props_descending(es),
                None => obj_prop_table(self.mem(), self.obj_id()) >= self.mem().len() || prop_scan(
                    self.mem(),
                    obj_props_start(self.mem(), self.obj_id()),
                ) is None,
            },
    {
        let v = match self.property_entries() {
            Some(v) => v,
            None => {
                return None;
            },
        };
        let ghost es = prop_scan(self.mem(), obj_props_start(self.mem(), self.obj_id()))->Some_0;
        let mut k: usize = 0;
        if v.len() == 0 {
            return Some(true);
        }
        while k < v.len() - 1
            invariant
                prop_scan(self.mem(), obj_props_start(self.mem(), self.obj_id())) == Some(es),
                v@.len() == es.len(),
                forall|i: int|
                    0 <= i < es.len() ==> #[trigger] v@[i].0 == es[i].0,
                v@.len() >= 1,
                k <= v@.len() - 1,
                forall|i: int| 0 <= i < k ==> #[trigger] es[i].0 > es[i + 1].0,
            decreases v@.len() - k,
        {
            if v[k].0 <= v[k + 1].0 {
                return Some(false);
            }
            k = k + 1;
        }
        proof {
            lemma_descending_from_adjacent(es);
        }
        Some(true)
    }

    /// Returns the value of the property with a particular ID, or
    /// [`None`] when the property is unset on this object or the scan
    /// runs past the image end. Searching stops at the first entry whose
    /// ID is not above the wanted one and succeeds only on equality.
    pub fn property_value(&self, property_id: usize) -> (r: Option<Vec<u8>>)
        requires
            self.wf(),
            1 <= property_id <= obj_prop_count(self.mem()),
        ensures
            match r {
                Some(v) => {
                    &&& obj_prop_table(self.mem(), self.obj_id()) < self.mem().len()
                    &&& (prop_lookup(
                        self.mem(),
                        obj_props_start(self.mem(), self.obj_id()),
                        property_id as int,
                    ) matches Some(Some((d, s))) && v@ == self.mem().subrange(d, d + s))
                },
                None => obj_prop_table(self.mem(), self.obj_id()) >= self.mem().len()
                    || !(prop_lookup(
                    self.mem(),
                    obj_props_start(self.mem(), self.obj_id()),
                    property_id as int,
                ) matches Some(Some(_))),
            },
    {
        let ghost m = self.mem();
        let start = match self.properties_start() {
            Some(p) => p,
            None => {
                return None;
            },
        };
        let n = self.machine.len_bytes();
        let v3 = self.machine.version().number() <= 3;
        let mut p: usize = start.addr();
        loop
            invariant
                self.wf(),
                m == self.mem(),
                n == m.len(),
                v3 == (version_number(m) <= 3),
                start.0 == obj_props_start(m, self.obj_id()),
                obj_prop_table(m, self.obj_id()) < m.len(),
                prop_lookup(m, start.0 as int, property_id as int) == prop_lookup(
                    m,
                    p as int,
                    property_id as int,
                ),
            decreases m.len() - p,
        {
            if p >= n {
                return None;
            }
            let b = self.machine.memory[p];
            if b == 0 {
                return None;
            }
            let (id, data, size) = if v3 {
                (b & 0x1F, p + 1, ((b >> 5) as usize) + 1)
            } else {
                if b & 0x80 == 0x80 {
                    if p + 1 >= n {
                        proof {
                            assert(prop_entry(m, p as int).1 == p + 2);
                            assert(prop_entry(m, p as int).2 >= 1);
                        }
                        return None;
                    }
                    let b2 = self.machine.memory[p + 1];
                    let sz = if b2 & 0x3F == 0 {
                        64
                    } else {
                        (b2 & 0x3F) as usize
                    };
                    (b & 0x3F, p + 2, sz)
                } else {
                    let sz: usize = if b & 0x40 == 0x40 {
                        2
                    } else {
                        1
                    };
                    (b & 0x3F, p + 1, sz)
                }
            };
            proof {
                assert(prop_entry(m, p as int) == (id, data as int, size as int, (data + size) as int));
            }
            if (id as usize) <= property_id {
                if (id as usize) == property_id {
                    if data >= n || size > n - data {
                        return None;
                    }
                    let mut out: Vec<u8> = Vec::new();
                    let mut i: usize = 0;
                    while i < size
                        invariant
                            self.wf(),
                            m == self.mem(),
                            n == m.len(),
                            i <= size,
                            data + size <= n,
                            out@ =~= m.subrange(data as int, data + i),
                        decreases size - i,
                    {
                        out.push(self.machine.memory[data + i]);
                        i = i + 1;
                    }
                    return Some(out);
                }
                return None;
            }
            if data >= n || size > n - data {
                return None;
            }
            p = data + size;
        }
    }

    /// Returns the value of the property with a particular ID, or the
    /// story's default for that property when it is unset; [`None`] only
    /// when the property is not set on this object and the defaults table
    /// runs past the image end.
    pub fn property_value_or_default(&self, property_id: usize) -> (r: Option<Vec<u8>>)
        requires
            self.wf(),
            1 <= property_id <= obj_prop_count(self.mem()),
        ensures
            match r {
                Some(v) => {
                    if obj_prop_table(self.mem(), self.obj_id()) < self.mem().len() && (prop_lookup(
                        self.mem(),
                        obj_props_start(self.mem(), self.obj_id()),
                        property_id as int,
                    ) matches Some(Some(_))) {
                        prop_lookup(
                            self.mem(),
                            obj_props_start(self.mem(), self.obj_id()),
                            property_id as int,
                        ) matches Some(Some((d, s))) && v@ == self.mem().subrange(d, d + s)
                    } else {
                        v@ == self.mem().subrange(
                            obj_table_base(self.mem()) + 2 * (property_id - 1),
                            obj_table_base(self.mem()) + 2 * property_id,
                        )
                    }
                },
                None => {
                    &&& obj_table_base(self.mem()) + 2 * property_id > self.mem().len()
                    &&& !(obj_prop_table(self.mem(), self.obj_id()) < self.mem().len()
                        && (prop_lookup(
                        self.mem(),
                        obj_props_start(self.mem(), self.obj_id()),
                        property_id as int,
                    ) matches Some(Some(_))))
                },
            },
    {
        match self.property_value(property_id) {
            Some(v) => Some(v),
            None => self.machine.default_property(property_id),
        }
    }
}

impl ZMachine {
    /// Decides whether object `o` occurs among the children of object
    /// `p`: in the sibling chain that starts at `p`'s child, followed for
    /// at most the inferred object count of links, as a guard against
    /// cycles in corrupt stories. [`None`] when the count cannot be
    /// inferred, an entry on the chain lies past the image end, or the
    /// chain is still going after that many links.
    pub fn is_in_children_chain(&self, p: usize, o: usize) -> (r: Option<bool>)
        requires
            self.wf(),
        ensures
            match r {
                Some(b) => {
                    &&& objects_count_inferable(self.mem())
                    &&& obj_readable(self.mem(), p as int)
                    &&& chain_walk(
                        self.mem(),
                        obj_child(self.mem(), p as int),
                        o as int,
                        (spec_objects_count(self.mem()) + 1) as nat,
                    ) == Some(b)
                    &&& b == chain_contains(
                        self.mem(),
                        obj_child(self.mem(), p as int),
                        o as int,
                        (spec_objects_count(self.mem()) + 1) as nat,
                    )
                },
                None => {
                    ||| !objects_count_inferable(self.mem())
                    ||| !obj_readable(self.mem(), p as int)
                    ||| chain_walk(
                        self.mem(),
                        obj_child(self.mem(), p as int),
                        o as int,
                        (spec_objects_count(self.mem()) + 1) as nat,
                    ) is None
                },
            },
    {
        let ghost m = self.mem();
        let n_mem = self.memory.len();
        let count = match self.objects_count() {
            Some(n) => n,
            None => {
                return None;
            },
        };
        let parent = match self.object_unchecked(p) {
            Some(obj) => obj,
            None => {
                return None;
            },
        };
        let bound = count + 1;
        let mut cur: usize = match parent.child_id() {
            Some(c) => c,
            None => 0,
        };
        let mut steps: usize = 0;
        while steps < bound
            invariant
                self.wf(),
                m == self.mem(),
                bound == spec_objects_count(m) + 1,
                m.len() <= usize::MAX,
                objects_count_inferable(m),
                obj_readable(m, p as int),
                steps <= bound,
                chain_walk(m, obj_child(m, p as int), o as int, bound as nat) == chain_walk(
                    m,
                    cur as int,
                    o as int,
                    (bound - steps) as nat,
                ),
            decreases bound - steps,
        {
            if cur == 0 {
                proof {
                    lemma_chain_walk_decides(m, obj_child(m, p as int), o as int, bound as nat);
                }
                return Some(false);
            }
            if cur == o {
                proof {
                    lemma_chain_walk_decides(m, obj_child(m, p as int), o as int, bound as nat);
                }
                return Some(true);
            }
            let obj = match self.object_unchecked(cur) {
                Some(obj) => obj,
                None => {
                    return None;
                },
            };
            cur = match obj.sibling_id() {
                Some(s) => s,
                None => 0,
            };
            steps = steps + 1;
        }
        None
    }

    /// Decides whether the object tree is conformant: every object with a
    /// parent occurs in that parent's children chain. [`None`] when the
    /// object count cannot be inferred, an entry lies past the image end,
    /// or a chain exceeds the count.
    pub fn tree_conformant(&self) -> (r: Option<bool>)
        requires
            self.wf(),
        ensures
            match r {
                Some(b) => {
                    &&& objects_count_inferable(self.mem())
                    &&& b == (forall|oid: int|
                        1 <= oid < spec_objects_count(self.mem()) && obj_parent(self.mem(), oid)
                            != 0 ==> #[trigger] chain_contains(
                            self.mem(),
                            obj_child(self.mem(), obj_parent(self.mem(), oid)),
                            oid,
                            (spec_objects_count(self.mem()) + 1) as nat,
                        ))
                },
                None => {
                    ||| !objects_count_inferable(self.mem())
                    ||| exists|oid: int|
                        #![trigger obj_readable(self.mem(), oid)]
                        1 <= oid < spec_objects_count(self.mem()) && (!obj_readable(
                            self.mem(),
                            oid,
                        ) || (obj_parent(self.mem(), oid) != 0 && (!obj_readable(
                            self.mem(),
                            obj_parent(self.mem(), oid),
                        ) || chain_walk(
                            self.mem(),
                            obj_child(self.mem(), obj_parent(self.mem(), oid)),
                            oid,
                            (spec_objects_count(self.mem()) + 1) as nat,
                        ) is None)))
                },
            },
    {
        let ghost m = self.mem();
        let n_mem = self.memory.len();
        let count = match self.objects_count() {
            Some(n) => n,
            None => {
                return None;
            },
        };
        let mut oid: usize = 1;
        while oid < count
            invariant
                self.wf(),
                m == self.mem(),
                count == spec_objects_count(m),
                objects_count_inferable(m),
                m.len() <= usize::MAX,
                1 <= oid,
                forall|j: int|
                    1 <= j < oid && obj_parent(m, j) != 0 ==> #[trigger] chain_contains(
                        m,
                        obj_child(m, obj_parent(m, j)),
                        j,
                        (spec_objects_count(m) + 1) as nat,
                    ),
            decreases count - oid,
        {
            let obj = match self.object_unchecked(oid) {
                Some(obj) => obj,
                None => {
                    proof {
                        assert(!obj_readable(m, oid as int));
                        assert(exists|j: int|
                            #![trigger obj_readable(m, j)]
                            1 <= j < spec_objects_count(m) && (!obj_readable(m, j) || (obj_parent(
                                m,
                                j,
                            ) != 0 && (!obj_readable(m, obj_parent(m, j)) || chain_walk(
                                m,
                                obj_child(m, obj_parent(m, j)),
                                j,
                                (spec_objects_count(m) + 1) as nat,
                            ) is None))));
                    }
                    return None;
                },
            };
            match obj.parent_id() {
                Some(parent) => {
                    match self.is_in_children_chain(parent, oid) {
                        Some(true) => (),
                        Some(false) => {
                            return Some(false);
                        },
                        None => {
                            proof {
                                assert(obj_parent(m, oid as int) == parent);
                                assert(!obj_readable(m, parent as int) || chain_walk(
                                    m,
                                    obj_child(m, parent as int),
                                    oid as int,
                                    (spec_objects_count(m) + 1) as nat,
                                ) is None);
                                assert(obj_readable(m, oid as int));
                                assert(exists|j: int|
                                    #![trigger obj_readable(m, j)]
                                    1 <= j < spec_objects_count(m) && (!obj_readable(m, j) || (
                                    obj_parent(m, j) != 0 && (!obj_readable(m, obj_parent(m, j))
                                        || chain_walk(
                                        m,
                                        obj_child(m, obj_parent(m, j)),
                                        j,
                                        (spec_objects_count(m) + 1) as nat,
                                    ) is None))));
                            }
                            return None;
                        },
                    }
                },
                None => (),
            }
            oid = oid + 1;
        }
        Some(true)
    }
}

} // verus!
