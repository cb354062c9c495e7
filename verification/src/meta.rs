//! The story header: version, status-line kind, flags, checksum, and
//! packed-address resolution.

use vstd::prelude::*;

use crate::bits::{BitAddress, ByteAddress};
use crate::consts;
use crate::memory::{bit_at, word_at};
use crate::ZMachine;

verus! {

/// The version of a story.
#[derive(Debug, Copy, Clone, PartialEq, Eq, Structural)]
pub enum Version {
    /// Version 1.
    V1,
    /// Version 2.
    V2,
    /// Version 3.
    V3,
    /// Version 4.
    V4,
    /// Version 5.
    V5,
    /// Version 6.
    V6,
    /// Version 7.
    V7,
    /// Version 8.
    V8,
}

impl Version {
    /// The number of this version, 1 through 8.
    pub open spec fn spec_number(self) -> u8 {
        match self {
            Version::V1 => 1,
            Version::V2 => 2,
            Version::V3 => 3,
            Version::V4 => 4,
            Version::V5 => 5,
            Version::V6 => 6,
            Version::V7 => 7,
            Version::V8 => 8,
        }
    }

    /// The number of this version, 1 through 8.
    pub fn number(&self) -> (r: u8)
        ensures
            r == self.spec_number(),
    {
        match self {
            Version::V1 => 1,
            Version::V2 => 2,
            Version::V3 => 3,
            Version::V4 => 4,
            Version::V5 => 5,
            Version::V6 => 6,
            Version::V7 => 7,
            Version::V8 => 8,
        }
    }
}

/// What the status line displays.
#[derive(Debug, Copy, Clone, PartialEq, Eq, Structural)]
pub enum StatusLine {
    /// `score/turns`
    ScoreTurns,
    /// `hours:mins`
    HoursMins,
}

/// The story's version number: the header's first octet, read as
/// version 8 (the newest this library knows) when the octet lies outside
/// the published 1 through 8.
pub open spec fn version_number(mem: Seq<u8>) -> u8 {
    if 1 <= mem[0] <= 8 {
        mem[0]
    } else {
        8
    }
}

/// The version enum a story's version octet denotes.
pub open spec fn spec_version(mem: Seq<u8>) -> Version {
    match version_number(mem) {
        1u8 => Version::V1,
        2u8 => Version::V2,
        3u8 => Version::V3,
        4u8 => Version::V4,
        5u8 => Version::V5,
        6u8 => Version::V6,
        7u8 => Version::V7,
        _ => Version::V8,
    }
}

/// The scale factor the version applies to the header's file-length word.
pub open spec fn file_length_scale(mem: Seq<u8>) -> int {
    if version_number(mem) <= 3 {
        2
    } else if version_number(mem) <= 5 {
        4
    } else {
        8
    }
}

/// The story's file length in bytes: the header word scaled by version.
pub open spec fn spec_file_length(mem: Seq<u8>) -> int {
    word_at(mem, consts::FILE_LENGTH as int) * file_length_scale(mem)
}

/// The unsigned 16-bit sum of the octets in `mem[64..end]`.
pub open spec fn checksum_sum(mem: Seq<u8>, end: int) -> int
    decreases end,
{
    if end <= 64 {
        0
    } else {
        checksum_sum(mem, end - 1) + mem[end - 1]
    }
}

/// The standard checksum of a story: the sum of every octet from offset 64
/// up to the scaled file length, modulo 2^16.
pub open spec fn spec_checksum(mem: Seq<u8>) -> int {
    checksum_sum(mem, spec_file_length(mem)) % 0x10000
}

/// The byte address a packed address `packed` resolves to. `routine` tells
/// whether the reference is to a routine or to a string, which matters for
/// versions 6 and 7 only.
pub open spec fn spec_packed_address(mem: Seq<u8>, packed: u16, routine: bool) -> int {
    let v = version_number(mem);
    if v <= 3 {
        packed * 2
    } else if v <= 5 {
        packed * 4
    } else if v <= 7 {
        if routine {
            packed * 4 + 8 * word_at(mem, consts::ROUTINES_OFFSET as int)
        } else {
            packed * 4 + 8 * word_at(mem, consts::STATIC_STRINGS_OFFSET as int)
        }
    } else {
        packed * 8
    }
}

impl ZMachine {
    /// Returns the version of this story. An octet outside 1 through 8
    /// reads as version 8.
    pub fn version(&self) -> (r: Version)
        requires
            self.wf(),
        ensures
            r == spec_version(self.mem()),
            r.spec_number() == version_number(self.mem()),
    {
        match self.byte(ByteAddress(consts::STORY_VERSION)) {
            1u8 => Version::V1,
            2u8 => Version::V2,
            3u8 => Version::V3,
            4u8 => Version::V4,
            5u8 => Version::V5,
            6u8 => Version::V6,
            7u8 => Version::V7,
            _ => Version::V8,
        }
    }

    /// Returns what the status line should display, or [`None`] if the
    /// story's version has no status line. In version 3 a flag selects
    /// `hours:mins`; versions 1 and 2 always show `score/turns`.
    pub fn status_line(&self) -> (r: Option<StatusLine>)
        requires
            self.wf(),
        ensures
            r == (if version_number(self.mem()) <= 3 {
                if version_number(self.mem()) == 3 && bit_at(
                    self.mem(),
                    consts::STATUS_LINE_BIT as int,
                ) {
                    Some(StatusLine::HoursMins)
                } else {
                    Some(StatusLine::ScoreTurns)
                }
            } else {
                None::<StatusLine>
            }),
    {
        let v = self.version().number();
        if v <= 3 {
            if v == 3 && self.bit(BitAddress(consts::STATUS_LINE_BIT)) {
                Some(StatusLine::HoursMins)
            } else {
                Some(StatusLine::ScoreTurns)
            }
        } else {
            None
        }
    }

    /// Returns whether the story is in two-disk mode.
    pub fn is_two_disks(&self) -> (r: bool)
        requires
            self.wf(),
        ensures
            r == bit_at(self.mem(), consts::TWO_DISKS_BIT as int),
    {
        self.bit(BitAddress(consts::TWO_DISKS_BIT))
    }

    /// The story's file length in bytes: the header word scaled by version.
    pub fn file_length(&self) -> (r: usize)
        requires
            self.wf(),
        ensures
            r == spec_file_length(self.mem()),
    {
        let w = self.word(ByteAddress(consts::FILE_LENGTH)) as usize;
        let v = self.version().number();
        if v <= 3 {
            w * 2
        } else if v <= 5 {
            w * 4
        } else {
            w * 8
        }
    }

    /// Calculates the standard checksum of the story: the unsigned 16-bit
    /// sum of every octet from offset 64 up to the scaled file length.
    /// Reports [`None`] when the header claims a file length beyond the
    /// loaded image.
    pub fn calculate_checksum(&self) -> (r: Option<u16>)
        requires
            self.wf(),
        ensures
            match r {
                Some(c) => spec_file_length(self.mem()) <= self.mem().len() && c == spec_checksum(
                    self.mem(),
                ),
                None => spec_file_length(self.mem()) > self.mem().len(),
            },
    {
        let end = self.file_length();
        if end > self.memory.len() {
            return None;
        }
        let mut acc: u32 = 0;
        let mut i: usize = 64;
        if end <= 64 {
            return Some(0);
        }
        proof {
            assert(checksum_sum(self.mem(), 64) == 0);
        }
        while i < end
            invariant
                64 <= i <= end,
                end <= self.mem().len(),
                end <= 0x80000,
                acc == checksum_sum(self.mem(), i as int),
                acc <= (i - 64) * 255,
            decreases end - i,
        {
            proof {
                assert((i - 64) * 255 <= (end - 64) * 255 <= 0x80000 * 255) by (nonlinear_arith)
                    requires
                        64 <= i <= end <= 0x80000,
                ;
            }
            acc = acc + self.memory[i] as u32;
            i = i + 1;
            proof {
                assert((i - 64) * 255 == (i - 1 - 64) * 255 + 255) by (nonlinear_arith);
            }
        }
        Some((acc % 0x10000) as u16)
    }

    /// Resolves a packed routine or string address into a byte address,
    /// applying the version's multiplier and, in versions 6 and 7, the
    /// routine or string offset from the header.
    pub fn resolve_packed_address(&self, packed: u16, routine: bool) -> (r: ByteAddress)
        requires
            self.wf(),
        ensures
            r.0 == spec_packed_address(self.mem(), packed, routine),
    {
        let v = self.version().number();
        if v <= 3 {
            ByteAddress((packed as usize) * 2)
        } else if v <= 5 {
            ByteAddress((packed as usize) * 4)
        } else if v <= 7 {
            let off = if routine {
                self.word(ByteAddress(consts::ROUTINES_OFFSET))
            } else {
                self.word(ByteAddress(consts::STATIC_STRINGS_OFFSET))
            };
            ByteAddress((packed as usize) * 4 + 8 * (off as usize))
        } else {
            ByteAddress((packed as usize) * 8)
        }
    }
}

} // verus!
