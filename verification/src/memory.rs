//! Reads and writes on the story image through the three typed address
//! spaces, and the three memory regions the header carves out of the image.
//!
//! Reads are available both as total functions over proven-in-bounds
//! addresses and as checked variants that report an out-of-range address.
//! Writes are allowed in dynamic memory only; a write elsewhere fails with
//! [`MemoryError::ReadOnlyMemory`], and a write past the image end with
//! [`MemoryError::BadAddress`].

use vstd::prelude::*;

use crate::bits::{BitAddress, ByteAddress, Word};
use crate::consts;
use crate::{MachineView, ZMachine};

verus! {

/// The 16-bit big-endian word stored at byte offset `b`.
pub open spec fn word_at(mem: Seq<u8>, b: int) -> Word {
    ((mem[b] as u16) << 8u16) | (mem[b + 1] as u16)
}

/// The bit stored at bit offset `x`, MSB-first within each octet.
pub open spec fn bit_at(mem: Seq<u8>, x: int) -> bool {
    ((mem[x / 8] >> ((7 - x % 8) as u8)) & 1u8) != 0u8
}

/// The octet `b` with bit number `i` (MSB-first, `0 <= i < 8`) set to `v`.
pub open spec fn with_bit(b: u8, i: int, v: bool) -> u8 {
    if v {
        b | (1u8 << ((7 - i) as u8))
    } else {
        b & !(1u8 << ((7 - i) as u8))
    }
}

/// A machine whose story image is `mem` and whose execution state is that
/// of `v`.
pub open spec fn with_mem(v: MachineView, mem: Seq<u8>) -> MachineView {
    MachineView { mem, ..v }
}

/// The first byte address past dynamic memory, as published in the header.
pub open spec fn static_memory_start(mem: Seq<u8>) -> int {
    word_at(mem, consts::STATIC_MEMORY_LOCATION as int) as int
}

/// The first byte address past static memory: the image end, but never past
/// the 64 KiB the format can address.
pub open spec fn static_memory_end(mem: Seq<u8>) -> int {
    if mem.len() < 0x10000 {
        mem.len() as int
    } else {
        0x10000
    }
}

/// The base of high memory, as published in the header.
pub open spec fn high_memory_start(mem: Seq<u8>) -> int {
    word_at(mem, consts::HIGH_MEMORY_LOCATION as int) as int
}

/// Whether byte address `a` lies in writable (dynamic) memory.
pub open spec fn in_dynamic_memory(mem: Seq<u8>, a: int) -> bool {
    0 <= a < static_memory_start(mem) && a < mem.len()
}

/// An error from a read or write on the story image.
#[derive(Debug, Clone, Copy, PartialEq, Eq, Structural)]
pub enum MemoryError {
    /// The address lies past the end of the image.
    BadAddress,
    /// The address lies in static or high memory, which a write may not
    /// touch.
    ReadOnlyMemory,
}

impl ZMachine {
    /// Reads the octet at a byte address known to be in bounds.
    pub fn byte(&self, addr: ByteAddress) -> (r: u8)
        requires
            addr.0 < self.mem().len(),
        ensures
            r == self.mem()[addr.0 as int],
    {
        self.memory[addr.0]
    }

    /// Reads the octet at a byte address, or reports an out-of-range
    /// address.
    pub fn try_byte(&self, addr: ByteAddress) -> (r: Option<u8>)
        ensures
            match r {
                Some(b) => addr.0 < self.mem().len() && b == self.mem()[addr.0 as int],
                None => addr.0 >= self.mem().len(),
            },
    {
        if addr.0 < self.memory.len() {
            Some(self.memory[addr.0])
        } else {
            None
        }
    }

    /// Reads the 16-bit big-endian word at a byte address known to be in
    /// bounds.
    ///
    /// The result is the first octet shifted into the high half, or-ed with
    /// the second octet.
    pub fn word(&self, addr: ByteAddress) -> (r: Word)
        requires
            addr.0 + 1 < self.mem().len(),
        ensures
            r == word_at(self.mem(), addr.0 as int),
    {
        let n = self.memory.len();
        let hi = self.memory[addr.0];
        let lo = self.memory[addr.0 + 1];
        let r = (hi as u16) * 256 + (lo as u16);
        proof {
            assert(r == ((hi as u16) << 8u16) | (lo as u16)) by (bit_vector)
                requires
                    r == (hi as u16) * 256 + (lo as u16),
            ;
        }
        r
    }

    /// Reads the 16-bit big-endian word at a byte address, or reports an
    /// out-of-range address.
    pub fn try_word(&self, addr: ByteAddress) -> (r: Option<Word>)
        ensures
            match r {
                Some(w) => addr.0 + 1 < self.mem().len() && w == word_at(
                    self.mem(),
                    addr.0 as int,
                ),
                None => addr.0 + 1 >= self.mem().len(),
            },
    {
        let n = self.memory.len();
        if addr.0 < n && addr.0 + 1 < n {
            Some(self.word(addr))
        } else {
            None
        }
    }

    /// Reads the bit at a bit address known to be in bounds. Bit address
    /// `x` names bit `7 - x % 8` (MSB-first) of octet `x / 8`.
    pub fn bit(&self, addr: BitAddress) -> (r: bool)
        requires
            addr.0 < self.mem().len() * 8,
        ensures
            r == bit_at(self.mem(), addr.0 as int),
    {
        let byte = self.memory[addr.0 / 8];
        let sh: u8 = (7 - addr.0 % 8) as u8;
        ((byte >> sh) & 1) != 0
    }

    /// Copies a contiguous sub-range of octets, or reports a range that
    /// runs backwards or past the image end.
    pub fn byte_range(&self, start: ByteAddress, end: ByteAddress) -> (r: Option<Vec<u8>>)
        ensures
            match r {
                Some(v) => start.0 <= end.0 <= self.mem().len() && v@ == self.mem().subrange(
                    start.0 as int,
                    end.0 as int,
                ),
                None => start.0 > end.0 || end.0 > self.mem().len(),
            },
    {
        if start.0 > end.0 || end.0 > self.memory.len() {
            return None;
        }
        let mut v: Vec<u8> = Vec::new();
        let mut i: usize = start.0;
        while i < end.0
            invariant
                start.0 <= i <= end.0,
                end.0 <= self.mem().len(),
                v@ =~= self.mem().subrange(start.0 as int, i as int),
            decreases end.0 - i,
        {
            v.push(self.memory[i]);
            i = i + 1;
        }
        proof {
            assert(v@ =~= self.mem().subrange(start.0 as int, end.0 as int));
        }
        Some(v)
    }

    /// Copies a contiguous sub-range of bits, MSB-first within each octet,
    /// or reports a range that runs backwards or past the image end.
    pub fn bit_range(&self, start: BitAddress, end: BitAddress) -> (r: Option<Vec<bool>>)
        requires
            self.mem().len() * 8 <= usize::MAX,
        ensures
            match r {
                Some(v) => {
                    &&& start.0 <= end.0 <= self.mem().len() * 8
                    &&& v@.len() == end.0 - start.0
                    &&& forall|i: int|
                        0 <= i < v@.len() ==> #[trigger] v@[i] == bit_at(
                            self.mem(),
                            start.0 + i,
                        )
                },
                None => start.0 > end.0 || end.0 > self.mem().len() * 8,
            },
    {
        let n = self.memory.len();
        if start.0 > end.0 || end.0 > n * 8 {
            return None;
        }
        let mut v: Vec<bool> = Vec::new();
        let mut i: usize = start.0;
        while i < end.0
            invariant
                start.0 <= i <= end.0,
                end.0 <= self.mem().len() * 8,
                self.mem().len() * 8 <= usize::MAX,
                v@.len() == i - start.0,
                forall|j: int|
                    0 <= j < v@.len() ==> #[trigger] v@[j] == bit_at(self.mem(), start.0 + j),
            decreases end.0 - i,
        {
            v.push(self.bit(BitAddress(i)));
            i = i + 1;
        }
        Some(v)
    }

    /// Writes an octet at the specified address. Only dynamic memory is
    /// writable.
    pub fn write_byte(&mut self, address: ByteAddress, byte: u8) -> (r: Result<(), MemoryError>)
        requires
            old(self).wf(),
        ensures
            match r {
                Ok(()) => {
                    &&& in_dynamic_memory(old(self).mem(), address.0 as int)
                    &&& final(self)@ == with_mem(
                        old(self)@,
                        old(self).mem().update(address.0 as int, byte),
                    )
                },
                Err(MemoryError::BadAddress) => {
                    &&& address.0 >= old(self).mem().len()
                    &&& final(self)@ == old(self)@
                },
                Err(MemoryError::ReadOnlyMemory) => {
                    &&& address.0 < old(self).mem().len()
                    &&& !in_dynamic_memory(old(self).mem(), address.0 as int)
                    &&& final(self)@ == old(self)@
                },
            },
    {
        if address.0 >= self.memory.len() {
            return Err(MemoryError::BadAddress);
        }
        let static_start = self.word(ByteAddress(consts::STATIC_MEMORY_LOCATION));
        if address.0 >= static_start as usize {
            return Err(MemoryError::ReadOnlyMemory);
        }
        self.memory.set(address.0, byte);
        Ok(())
    }

    /// Writes a 16-bit big-endian word at the specified address. Both
    /// octets must lie in dynamic memory.
    pub fn write_word(&mut self, address: ByteAddress, word: Word) -> (r: Result<(), MemoryError>)
        requires
            old(self).wf(),
        ensures
            match r {
                Ok(()) => {
                    &&& in_dynamic_memory(old(self).mem(), address.0 + 1)
                    &&& final(self)@ == with_mem(
                        old(self)@,
                        old(self).mem().update(address.0 as int, (word >> 8u16) as u8).update(
                            address.0 + 1,
                            (word & 0xFFu16) as u8,
                        ),
                    )
                    &&& word_at(final(self).mem(), address.0 as int) == word
                },
                Err(MemoryError::BadAddress) => {
                    &&& address.0 + 1 >= old(self).mem().len()
                    &&& final(self)@ == old(self)@
                },
                Err(MemoryError::ReadOnlyMemory) => {
                    &&& address.0 + 1 < old(self).mem().len()
                    &&& !in_dynamic_memory(old(self).mem(), address.0 + 1)
                    &&& final(self)@ == old(self)@
                },
            },
    {
        let n = self.memory.len();
        if address.0 >= n || address.0 + 1 >= n {
            return Err(MemoryError::BadAddress);
        }
        let static_start = self.word(ByteAddress(consts::STATIC_MEMORY_LOCATION));
        if address.0 + 1 >= static_start as usize {
            return Err(MemoryError::ReadOnlyMemory);
        }
        proof {
            assert(word >> 8u16 < 256 && word & 0xFFu16 < 256) by (bit_vector);
        }
        let hi = (word >> 8) as u8;
        let lo = (word & 0xFF) as u8;
        self.memory.set(address.0, hi);
        self.memory.set(address.0 + 1, lo);
        proof {
            let m = final(self).mem();
            assert(word_at(m, address.0 as int) == ((hi as u16) << 8u16) | (lo as u16));
            assert((((word >> 8u16) as u8 as u16) << 8u16) | ((word & 0xFFu16) as u8 as u16)
                == word) by (bit_vector);
        }
        Ok(())
    }

    /// Writes a bit at the specified address. The octet holding the bit
    /// must lie in dynamic memory.
    pub fn write_bit(&mut self, address: BitAddress, bit: bool) -> (r: Result<(), MemoryError>)
        requires
            old(self).wf(),
        ensures
            match r {
                Ok(()) => {
                    &&& in_dynamic_memory(old(self).mem(), address.0 as int / 8)
                    &&& final(self)@ == with_mem(
                        old(self)@,
                        old(self).mem().update(
                            address.0 as int / 8,
                            with_bit(
                                old(self).mem()[address.0 as int / 8],
                                address.0 as int % 8,
                                bit,
                            ),
                        ),
                    )
                    &&& bit_at(final(self).mem(), address.0 as int) == bit
                },
                Err(MemoryError::BadAddress) => {
                    &&& address.0 >= old(self).mem().len() * 8
                    &&& final(self)@ == old(self)@
                },
                Err(MemoryError::ReadOnlyMemory) => {
                    &&& address.0 < old(self).mem().len() * 8
                    &&& !in_dynamic_memory(old(self).mem(), address.0 as int / 8)
                    &&& final(self)@ == old(self)@
                },
            },
    {
        let byte_idx = address.0 / 8;
        if byte_idx >= self.memory.len() {
            proof {
                assert(address.0 as int / 8 >= old(self).mem().len() ==> address.0
                    >= old(self).mem().len() * 8);
            }
            return Err(MemoryError::BadAddress);
        }
        let static_start = self.word(ByteAddress(consts::STATIC_MEMORY_LOCATION));
        if byte_idx >= static_start as usize {
            return Err(MemoryError::ReadOnlyMemory);
        }
        let old_byte = self.memory[byte_idx];
        let sh: u8 = (7 - address.0 % 8) as u8;
        let new_byte = if bit {
            old_byte | (1u8 << sh)
        } else {
            old_byte & !(1u8 << sh)
        };
        self.memory.set(byte_idx, new_byte);
        proof {
            let j: u8 = (address.0 % 8) as u8;
            assert(((if bit {
                old_byte | (1u8 << ((7 - j) as u8))
            } else {
                old_byte & !(1u8 << ((7 - j) as u8))
            }) >> ((7 - j) as u8)) & 1u8 == (if bit {
                1u8
            } else {
                0u8
            })) by (bit_vector)
                requires
                    j < 8,
            ;
            let i = address.0 as int % 8;
            assert(j == i && (7 - j) as u8 == (7 - i) as u8);
            assert(new_byte == with_bit(old(self).mem()[address.0 as int / 8], i, bit));
        }
        Ok(())
    }

    /// The byte-address range of memory classified dynamic: everything
    /// below the static memory base.
    pub fn dynamic_memory_range(&self) -> (r: core::ops::Range<ByteAddress>)
        requires
            self.wf(),
        ensures
            r.start.0 == 0,
            r.end.0 == static_memory_start(self.mem()),
    {
        ByteAddress(0)..ByteAddress(self.word(ByteAddress(consts::STATIC_MEMORY_LOCATION)) as usize)
    }

    /// The byte-address range of memory classified static: from the static
    /// memory base to the image end, but never past 64 KiB.
    pub fn static_memory_range(&self) -> (r: core::ops::Range<ByteAddress>)
        requires
            self.wf(),
        ensures
            r.start.0 == static_memory_start(self.mem()),
            r.end.0 == static_memory_end(self.mem()),
    {
        let end = if self.memory.len() < 0x10000 {
            self.memory.len()
        } else {
            0x10000
        };
        ByteAddress(self.word(ByteAddress(consts::STATIC_MEMORY_LOCATION)) as usize)..ByteAddress(
            end,
        )
    }

    /// The byte-address range of memory classified high: from the high
    /// memory base to the image end.
    pub fn high_memory_range(&self) -> (r: core::ops::Range<ByteAddress>)
        requires
            self.wf(),
        ensures
            r.start.0 == high_memory_start(self.mem()),
            r.end.0 == self.mem().len(),
    {
        ByteAddress(self.word(ByteAddress(consts::HIGH_MEMORY_LOCATION)) as usize)..ByteAddress(
            self.memory.len(),
        )
    }

    /// The base byte address of the abbreviations table, as published in
    /// the header.
    pub fn get_abbreviations_table_base(&self) -> (r: ByteAddress)
        requires
            self.wf(),
        ensures
            r.0 == word_at(self.mem(), consts::ABBREVIATIONS_LOCATION as int),
    {
        ByteAddress(self.word(ByteAddress(consts::ABBREVIATIONS_LOCATION)) as usize)
    }
}

} // verus!
