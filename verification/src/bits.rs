//! Typed addresses over the story image.
//!
//! The Z-machine reads one backing byte image through three distinct address
//! spaces: bytes, 16-bit big-endian words, and bits (most significant bit
//! first within each octet). Keeping the kinds as separate types means that
//! mixing units cannot typecheck; explicit conversions are the only bridge.

use vstd::prelude::*;

verus! {

/// A 16-bit big-endian story word.
pub type Word = u16;

/// Wrapper type for a [`usize`] representing a byte address.
#[derive(Debug, Copy, Clone, PartialEq, Eq, Structural)]
pub struct ByteAddress(pub usize);

/// Wrapper type for a [`usize`] representing a bit address.
///
/// Bit addresses are MSB-first: bit address `x` names bit `7 - x % 8` of
/// octet `x / 8`.
#[derive(Debug, Copy, Clone, PartialEq, Eq, Structural)]
pub struct BitAddress(pub usize);

impl ByteAddress {
    /// Returns the address number, in bytes. Equivalent to `addr.0`.
    pub fn addr(&self) -> (r: usize)
        ensures
            r == self.0,
    {
        self.0
    }

    /// The byte address of this address's most significant bit.
    pub fn to_bits(self) -> (r: BitAddress)
        requires
            self.0 * 8 <= usize::MAX,
        ensures
            r.0 == self.0 * 8,
    {
        BitAddress(self.0 * 8)
    }

    /// This address moved `rhs` bytes up.
    pub fn plus(self, rhs: usize) -> (r: ByteAddress)
        requires
            self.0 + rhs <= usize::MAX,
        ensures
            r.0 == self.0 + rhs,
    {
        ByteAddress(self.0 + rhs)
    }

    /// This address moved `rhs` bytes down.
    pub fn minus(self, rhs: usize) -> (r: ByteAddress)
        requires
            rhs <= self.0,
        ensures
            r.0 == self.0 - rhs,
    {
        ByteAddress(self.0 - rhs)
    }
}

impl BitAddress {
    /// Returns the address number, in bits. Be careful not to make or do math
    /// with a different kind of address.
    pub fn addr(&self) -> (r: usize)
        ensures
            r == self.0,
    {
        self.0
    }

    /// The byte address of the octet holding this bit.
    pub fn to_bytes(self) -> (r: ByteAddress)
        ensures
            r.0 == self.0 / 8,
    {
        ByteAddress(self.0 / 8)
    }

    /// This address moved `rhs` bits up.
    pub fn plus(self, rhs: usize) -> (r: BitAddress)
        requires
            self.0 + rhs <= usize::MAX,
        ensures
            r.0 == self.0 + rhs,
    {
        BitAddress(self.0 + rhs)
    }
}

impl From<Word> for ByteAddress {
    /// Widens a story word into the byte address it denotes.
    fn from(word: Word) -> (r: Self)
        ensures
            r.0 == word,
    {
        ByteAddress(word as usize)
    }
}

impl vstd::std_specs::convert::FromSpecImpl<Word> for ByteAddress {
    open spec fn obeys_from_spec() -> bool {
        true
    }

    open spec fn from_spec(word: Word) -> Self {
        ByteAddress(word as usize)
    }
}

impl From<Word> for BitAddress {
    /// Widens a story word, read as a byte address, into a bit address.
    fn from(word: Word) -> (r: Self)
        ensures
            r.0 == word * 8,
    {
        BitAddress((word as usize) * 8)
    }
}

impl vstd::std_specs::convert::FromSpecImpl<Word> for BitAddress {
    open spec fn obeys_from_spec() -> bool {
        true
    }

    open spec fn from_spec(word: Word) -> Self {
        BitAddress(((word as usize) * 8) as usize)
    }
}

} // verus!
