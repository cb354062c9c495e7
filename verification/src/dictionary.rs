//! The dictionary: word-separator characters, entry layout, and decoded
//! entries.
//!
//! The table starts with a length byte, that many word-separator ZSCII
//! octets, an entry-size byte, and a two-octet entry count; the fixed-size
//! entries follow, each beginning with an encoded Z-string.

use vstd::prelude::*;

use crate::bits::ByteAddress;
use crate::consts;
use crate::memory::word_at;
use crate::text::{spec_zscii_char, spec_zstring};
use crate::ZMachine;

verus! {

/// The base byte address of the dictionary, from the header.
pub open spec fn dict_base(mem: Seq<u8>) -> int {
    word_at(mem, consts::DICTIONARY_LOCATION as int) as int
}

/// The number of word-separator octets, from the table's first byte.
pub open spec fn dict_sep_len(mem: Seq<u8>) -> int {
    mem[dict_base(mem)] as int
}

/// The size in octets of one dictionary entry.
pub open spec fn dict_entry_size(mem: Seq<u8>) -> int {
    mem[dict_base(mem) + dict_sep_len(mem) + 1] as int
}

/// The byte address of the two-octet entry count.
pub open spec fn dict_words_base(mem: Seq<u8>) -> int {
    dict_base(mem) + dict_sep_len(mem) + 2
}

/// The number of entries in the dictionary.
pub open spec fn dict_len(mem: Seq<u8>) -> int {
    word_at(mem, dict_words_base(mem)) as int
}

/// The byte address of dictionary entry `i`.
pub open spec fn dict_entry_addr(mem: Seq<u8>, i: int) -> int {
    dict_words_base(mem) + 2 + i * dict_entry_size(mem)
}

/// Whether the dictionary's header (length byte, separators, entry size,
/// entry count) lies inside the image.
pub open spec fn dict_header_wf(mem: Seq<u8>) -> bool {
    dict_base(mem) + dict_sep_len(mem) + 3 < mem.len()
}

/// The word-separator characters: each separator octet read as ZSCII,
/// dropping the octets that are not printable in this story.
pub open spec fn spec_separator_chars(mem: Seq<u8>, b: int, n: int) -> Seq<char>
    decreases n,
{
    if n <= 0 {
        Seq::<char>::empty()
    } else {
        spec_separator_chars(mem, b, n - 1) + (match spec_zscii_char(
            mem,
            mem[b + n - 1] as u16,
        ) {
            Some(c) => seq![c],
            None => Seq::<char>::empty(),
        })
    }
}

/// The word-separator characters of the story's dictionary.
pub open spec fn spec_word_separators(mem: Seq<u8>) -> Seq<char> {
    spec_separator_chars(mem, dict_base(mem) + 1, dict_sep_len(mem))
}

impl ZMachine {
    /// Returns the base address of the dictionary (i.e. the start of the
    /// table header).
    pub fn dictionary_base(&self) -> (r: ByteAddress)
        requires
            self.wf(),
        ensures
            r.0 == dict_base(self.mem()),
    {
        ByteAddress(self.word(ByteAddress(consts::DICTIONARY_LOCATION)) as usize)
    }

    /// Returns the number of word-separator octets the dictionary names,
    /// or [`None`] when the table's length byte lies past the image end.
    pub fn word_separators_len(&self) -> (r: Option<usize>)
        requires
            self.wf(),
        ensures
            match r {
                Some(n) => dict_base(self.mem()) < self.mem().len() && n == dict_sep_len(
                    self.mem(),
                ),
                None => dict_base(self.mem()) >= self.mem().len(),
            },
    {
        let base = self.dictionary_base();
        match self.try_byte(base) {
            Some(b) => Some(b as usize),
            None => None,
        }
    }

    /// Copies the word-separator characters (excluding space) into the
    /// provided buffer. Returns false, leaving the buffer unchanged, when
    /// the separator table lies past the image end.
    pub fn copy_word_separators(&self, buf: &mut Vec<char>) -> (r: bool)
        requires
            self.wf(),
        ensures
            r == (dict_base(self.mem()) + 1 + dict_sep_len(self.mem()) <= self.mem().len()
                && dict_base(self.mem()) < self.mem().len()),
            r ==> final(buf)@ == old(buf)@ + spec_word_separators(self.mem()),
            !r ==> final(buf)@ == old(buf)@,
    {
        let base = self.dictionary_base();
        let n = match self.try_byte(base) {
            Some(b) => b as usize,
            None => {
                return false;
            },
        };
        let sep_base = base.addr() + 1;
        if sep_base + n > self.memory.len() {
            return false;
        }
        let mut x: usize = 0;
        while x < n
            invariant
                self.wf(),
                x <= n,
                sep_base == dict_base(self.mem()) + 1,
                n == dict_sep_len(self.mem()),
                sep_base + n <= self.mem().len(),
                buf@ == old(buf)@ + spec_separator_chars(self.mem(), sep_base as int, x as int),
            decreases n - x,
        {
            let zscii = self.memory[sep_base + x] as u16;
            match self.zscii_char(zscii) {
                Some(ch) => buf.push(ch),
                None => (),
            }
            x = x + 1;
        }
        true
    }

    /// Returns a list of the word-separator characters (excluding space),
    /// or [`None`] when the separator table lies past the image end.
    pub fn word_separators(&self) -> (r: Option<Vec<char>>)
        requires
            self.wf(),
        ensures
            match r {
                Some(v) => v@ == spec_word_separators(self.mem()),
                None => dict_base(self.mem()) >= self.mem().len() || dict_base(self.mem()) + 1
                    + dict_sep_len(self.mem()) > self.mem().len(),
            },
    {
        let mut v: Vec<char> = Vec::new();
        if self.copy_word_separators(&mut v) {
            Some(v)
        } else {
            None
        }
    }

    /// Returns the byte address of the dictionary's entry-count word,
    /// which the fixed-size entries follow; or [`None`] when the table's
    /// length byte lies past the image end.
    pub fn dictionary_words_base(&self) -> (r: Option<ByteAddress>)
        requires
            self.wf(),
        ensures
            match r {
                Some(a) => dict_base(self.mem()) < self.mem().len() && a.0 == dict_words_base(
                    self.mem(),
                ),
                None => dict_base(self.mem()) >= self.mem().len(),
            },
    {
        let base = self.dictionary_base();
        match self.try_byte(base) {
            Some(b) => Some(ByteAddress(base.addr() + b as usize + 2)),
            None => None,
        }
    }

    /// Returns the number of entries in the dictionary, or [`None`] when
    /// the table's header lies past the image end.
    pub fn dictionary_len(&self) -> (r: Option<usize>)
        requires
            self.wf(),
        ensures
            match r {
                Some(n) => dict_header_wf(self.mem()) && n == dict_len(self.mem()),
                None => !dict_header_wf(self.mem()),
            },
    {
        let base = self.dictionary_base();
        let seps = match self.try_byte(base) {
            Some(b) => b as usize,
            None => {
                return None;
            },
        };
        match self.try_word(ByteAddress(base.addr() + seps + 2)) {
            Some(w) => Some(w as usize),
            None => None,
        }
    }

    /// Returns the size in octets of one dictionary entry, or [`None`]
    /// when the table's header lies past the image end.
    pub fn dictionary_entry_size(&self) -> (r: Option<usize>)
        requires
            self.wf(),
        ensures
            match r {
                Some(n) => dict_header_wf(self.mem()) && n == dict_entry_size(self.mem()),
                None => !dict_header_wf(self.mem()),
            },
    {
        let base = self.dictionary_base();
        let seps = match self.try_byte(base) {
            Some(b) => b as usize,
            None => {
                return None;
            },
        };
        if base.addr() + seps + 3 < self.memory.len() {
            Some(self.memory[base.addr() + seps + 1] as usize)
        } else {
            None
        }
    }

    /// Copies the dictionary word at a particular index into the provided
    /// buffer. Returns false, leaving the buffer unchanged, when the
    /// dictionary header lies out of bounds, the index is out of range, or
    /// no valid Z-string starts at the entry.
    pub fn copy_dictionary_word(&self, idx: usize, string: &mut String) -> (r: bool)
        requires
            self.wf(),
        ensures
            r == (dict_header_wf(self.mem()) && idx < dict_len(self.mem()) && spec_zstring(
                self.mem(),
                dict_entry_addr(self.mem(), idx as int),
            ) is Some),
            match spec_zstring(self.mem(), dict_entry_addr(self.mem(), idx as int)) {
                Some((t, _)) => r ==> final(string)@ == old(string)@ + t,
                None => true,
            },
            !r ==> final(string)@ == old(string)@,
    {
        let len = match self.dictionary_len() {
            Some(n) => n,
            None => {
                return false;
            },
        };
        if idx >= len {
            return false;
        }
        let word_sz = match self.dictionary_entry_size() {
            Some(n) => n,
            None => {
                return false;
            },
        };
        let base = self.dictionary_base();
        let seps = self.memory[base.addr()] as usize;
        let words_base = base.addr() + seps + 2;
        proof {
            assert(idx * dict_entry_size(self.mem()) <= 65535 * 255) by (nonlinear_arith)
                requires
                    0 <= idx <= 65535,
                    0 <= dict_entry_size(self.mem()) <= 255,
            ;
        }
        let entry = words_base + 2 + idx * word_sz;
        self.copy_zstring(ByteAddress(entry), string)
    }

    /// Returns the dictionary word at a particular index, or [`None`]
    /// when the dictionary header lies out of bounds, the index is out of
    /// range, or no valid Z-string starts at the entry.
    pub fn dictionary_word(&self, idx: usize) -> (r: Option<String>)
        requires
            self.wf(),
        ensures
            match r {
                Some(s) => {
                    &&& dict_header_wf(self.mem())
                    &&& idx < dict_len(self.mem())
                    &&& (spec_zstring(
                        self.mem(),
                        dict_entry_addr(self.mem(), idx as int),
                    ) matches Some((t, _)) && s@ == t)
                },
                None => !(dict_header_wf(self.mem()) && idx < dict_len(self.mem()) && spec_zstring(
                    self.mem(),
                    dict_entry_addr(self.mem(), idx as int),
                ) is Some),
            },
    {
        let mut s = String::new();
        if self.copy_dictionary_word(idx, &mut s) {
            Some(s)
        } else {
            None
        }
    }

    /// Returns the decoded text of every word in the dictionary, or
    /// [`None`] when the dictionary header lies out of bounds or any
    /// entry holds no valid Z-string.
    pub fn dictionary_words(&self) -> (r: Option<Vec<String>>)
        requires
            self.wf(),
        ensures
            match r {
                Some(v) => {
                    &&& dict_header_wf(self.mem())
                    &&& v@.len() == dict_len(self.mem())
                    &&& forall|i: int|
                        0 <= i < v@.len() ==> #[trigger] spec_zstring(
                            self.mem(),
                            dict_entry_addr(self.mem(), i),
                        ) is Some
                    &&& forall|i: int|
                        0 <= i < v@.len() ==> #[trigger] v@[i]@ == spec_zstring(
                            self.mem(),
                            dict_entry_addr(self.mem(), i),
                        )->Some_0.0
                },
                None => !dict_header_wf(self.mem()) || exists|i: int|
                    0 <= i < dict_len(self.mem()) && #[trigger] spec_zstring(
                        self.mem(),
                        dict_entry_addr(self.mem(), i),
                    ) is None,
            },
    {
        let len = match self.dictionary_len() {
            Some(n) => n,
            None => {
                return None;
            },
        };
        let mut v: Vec<String> = Vec::new();
        let mut i: usize = 0;
        while i < len
            invariant
                self.wf(),
                i <= len,
                len == dict_len(self.mem()),
                dict_header_wf(self.mem()),
                v@.len() == i,
                forall|j: int|
                    0 <= j < i ==> #[trigger] spec_zstring(
                        self.mem(),
                        dict_entry_addr(self.mem(), j),
                    ) is Some,
                forall|j: int|
                    0 <= j < i ==> #[trigger] v@[j]@ == spec_zstring(
                        self.mem(),
                        dict_entry_addr(self.mem(), j),
                    )->Some_0.0,
            decreases len - i,
        {
            let ghost v0 = v@;
            match self.dictionary_word(i) {
                Some(s) => v.push(s),
                None => {
                    return None;
                },
            }
            i = i + 1;
            proof {
                assert forall|j: int| 0 <= j < i implies #[trigger] v@[j]@ == spec_zstring(
                    self.mem(),
                    dict_entry_addr(self.mem(), j),
                )->Some_0.0 by {
                    if j < i - 1 {
                        assert(v@[j] == v0[j]);
                    } else {
                        assert(v@[j] == v@[i - 1]);
                    }
                }
            }
        }
        Some(v)
    }
}

} // verus!
