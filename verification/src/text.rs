//! Z-string decoding: alphabets, the Unicode translation table, ZSCII, the
//! five-bit decoder state machine, and abbreviation expansion.
//!
//! A Z-string is a sequence of 16-bit big-endian words, each packing three
//! 5-bit Z-characters; bit 15 of a word marks the terminating word. The
//! decoder runs left to right with a running alphabet and a pending
//! modifier (an abbreviation bank, a ten-bit ZSCII escape in progress, or a
//! one-shot shift). The whole state machine is modelled by spec functions
//! and the executable decoder is proved against them.

use vstd::prelude::*;

use crate::bits::ByteAddress;
use crate::consts;
use crate::memory::word_at;
use crate::meta::version_number;
use crate::ZMachine;

verus! {

/// The text mode used when indexing an [`Alphabet`].
#[derive(Debug, Copy, Clone, Eq, PartialEq, Structural)]
pub enum AlphabetMode {
    /// Lowercase mode.
    Lowercase,
    /// Uppercase mode.
    Uppercase,
    /// Number/symbol mode.
    Symbol,
}

/// The decoder's pending modifier between Z-characters.
#[derive(Debug, Copy, Clone, Eq, PartialEq, Structural)]
pub enum ZStringState {
    /// No modifier pending.
    Unset,
    /// A ten-bit ZSCII escape was opened; the next Z-character is its high
    /// five bits.
    TenBitHigh,
    /// The high five bits of a ten-bit ZSCII escape were captured; the next
    /// Z-character is its low five bits.
    TenBitLow(u8),
    /// The next printed Z-character uses this alphabet, then the running
    /// alphabet resumes.
    ModeShift(AlphabetMode),
    /// An abbreviation bank (1 to 3) is pending; the next Z-character
    /// selects the entry.
    Abbreviation(u8),
}

/// The default lowercase alphabet row: `a` through `z`.
pub open spec fn default_lower_row() -> Seq<u8> {
    Seq::new(26, |i: int| (97 + i) as u8)
}

/// The default uppercase alphabet row: `A` through `Z`.
pub open spec fn default_upper_row() -> Seq<u8> {
    Seq::new(26, |i: int| (65 + i) as u8)
}

/// The default symbol alphabet row; version 1 has its own.
#[verifier::opaque]
pub open spec fn default_symbol_row(v: u8) -> Seq<u8> {
    if v == 1 {
        // " 0123456789.,!?_#'\"/\\<-:()"
        seq![
            32u8, 48u8, 49u8, 50u8, 51u8, 52u8, 53u8, 54u8, 55u8, 56u8, 57u8, 46u8, 44u8, 33u8,
            63u8, 95u8, 35u8, 39u8, 34u8, 47u8, 92u8, 60u8, 45u8, 58u8, 40u8, 41u8,
        ]
    } else {
        // " \n0123456789.,!?_#'\"/\\-:()"
        seq![
            32u8, 10u8, 48u8, 49u8, 50u8, 51u8, 52u8, 53u8, 54u8, 55u8, 56u8, 57u8, 46u8, 44u8,
            33u8, 63u8, 95u8, 35u8, 39u8, 34u8, 47u8, 92u8, 45u8, 58u8, 40u8, 41u8,
        ]
    }
}

/// The base of the story's alphabet-table override, from the header.
pub open spec fn alphabet_override_base(mem: Seq<u8>) -> int {
    word_at(mem, consts::ALPHABET_TABLE_ADDRESS as int) as int
}

/// Whether the story declares an alphabet table of its own: version 5 or
/// later, a non-zero table address, and all 78 octets inside the image.
pub open spec fn has_alphabet_override(mem: Seq<u8>) -> bool {
    &&& version_number(mem) >= 5
    &&& alphabet_override_base(mem) != 0
    &&& alphabet_override_base(mem) + 78 <= mem.len()
}

/// The 26 ZSCII octets of one alphabet row of the story.
pub open spec fn spec_alphabet_row(mem: Seq<u8>, mode: AlphabetMode) -> Seq<u8> {
    if has_alphabet_override(mem) {
        let b = alphabet_override_base(mem);
        match mode {
            AlphabetMode::Lowercase => mem.subrange(b, b + 26),
            AlphabetMode::Uppercase => mem.subrange(b + 26, b + 52),
            AlphabetMode::Symbol => mem.subrange(b + 52, b + 78),
        }
    } else {
        match mode {
            AlphabetMode::Lowercase => default_lower_row(),
            AlphabetMode::Uppercase => default_upper_row(),
            AlphabetMode::Symbol => default_symbol_row(version_number(mem)),
        }
    }
}

/// Every alphabet row of a story holds exactly 26 octets.
pub proof fn lemma_alphabet_row_len(mem: Seq<u8>, mode: AlphabetMode)
    ensures
        spec_alphabet_row(mem, mode).len() == 26,
{
    reveal(default_symbol_row);
}

/// The default Unicode translation table: the 69 standard codepoints for
/// extended ZSCII 155 through 223.
#[verifier::opaque]
pub open spec fn default_unicode_codes() -> Seq<u16> {
    seq![
        0xe4u16, 0xf6u16, 0xfcu16, 0xc4u16, 0xd6u16, 0xdcu16, 0xdfu16, 0xbbu16, 0xabu16, 0xebu16,
        0xefu16, 0xffu16, 0xcbu16, 0xcfu16, 0xe1u16, 0xe9u16, 0xedu16, 0xf3u16, 0xfau16, 0xfdu16,
        0xc1u16, 0xc9u16, 0xcdu16, 0xd3u16, 0xdau16, 0xddu16, 0xe0u16, 0xe8u16, 0xecu16, 0xf2u16,
        0xf9u16, 0xc0u16, 0xc8u16, 0xccu16, 0xd2u16, 0xd9u16, 0xe2u16, 0xeau16, 0xeeu16, 0xf4u16,
        0xfbu16, 0xc2u16, 0xcau16, 0xceu16, 0xd4u16, 0xdbu16, 0xe5u16, 0xc5u16, 0xf8u16, 0xd8u16,
        0xe3u16, 0xf1u16, 0xf5u16, 0xc3u16, 0xd1u16, 0xd5u16, 0xe6u16, 0xc6u16, 0xe7u16, 0xc7u16,
        0xfeu16, 0xf0u16, 0xdeu16, 0xd0u16, 0xa3u16, 0x153u16, 0x152u16, 0xa1u16, 0xbfu16,
    ]
}

/// The base of the story's own Unicode translation table, reached through
/// the header extension table, or 0 when there is none in reach.
pub open spec fn unicode_override_base(mem: Seq<u8>) -> int {
    if version_number(mem) < 5 {
        0
    } else {
        let ext = word_at(mem, consts::HEADER_EXTENSION_TABLE_ADDRESS as int) as int;
        if ext == 0 || ext + consts::HEADER_EXT_UNICODE_TRANSLATION_TABLE_LOCATION + 1
            >= mem.len() {
            0
        } else {
            word_at(mem, ext + consts::HEADER_EXT_UNICODE_TRANSLATION_TABLE_LOCATION) as int
        }
    }
}

/// The Unicode codepoints the story translates extended ZSCII through:
/// its own table when one is declared and fully inside the image, the
/// standard table otherwise.
pub open spec fn spec_unicode_codes(mem: Seq<u8>) -> Seq<u16> {
    let b = unicode_override_base(mem);
    if b == 0 || b >= mem.len() {
        default_unicode_codes()
    } else {
        let n = mem[b] as int;
        if b + 1 + 2 * n > mem.len() {
            default_unicode_codes()
        } else {
            Seq::new(n as nat, |i: int| word_at(mem, b + 1 + 2 * i))
        }
    }
}

/// The character a 16-bit codepoint denotes, or [`None`] for a surrogate.
pub open spec fn char_from_code(code: u16) -> Option<char> {
    if 0xD800 <= code <= 0xDFFF {
        None
    } else {
        Some((code as u32) as char)
    }
}

/// The character a ZSCII code denotes in this story, or [`None`] when the
/// code is not printable and is skipped.
#[verifier::opaque]
pub open spec fn spec_zscii_char(mem: Seq<u8>, zscii: u16) -> Option<char> {
    let v = version_number(mem);
    if zscii == 9 {
        if v == 6 {
            Some('\t')
        } else {
            None
        }
    } else if zscii == 11 {
        if v == 6 {
            Some(' ')
        } else {
            None
        }
    } else if zscii == 13 {
        Some('\n')
    } else if 32 <= zscii <= 126 {
        Some((zscii as u8) as char)
    } else if 155 <= zscii <= 251 {
        let codes = spec_unicode_codes(mem);
        let idx = zscii - 155;
        if idx < codes.len() {
            char_from_code(codes[idx as int])
        } else {
            None
        }
    } else {
        None
    }
}

/// Relies on char::from_u32: `Some` exactly for codes that are not
/// surrogates and do not exceed 0x10FFFF, and the returned character has
/// the given code.
#[verifier::external_body]
fn char_from_u32(code: u32) -> (r: Option<char>)
    ensures
        match r {
            Some(c) => c as u32 == code,
            None => 0xD800 <= code <= 0xDFFF || code > 0x10FFFF,
        },
{
    char::from_u32(code)
}

/// The alphabet a story uses for encoding Z-strings: three rows of 26
/// ZSCII octets.
#[derive(Debug)]
pub struct Alphabet {
    pub(crate) lower: Vec<u8>,
    pub(crate) upper: Vec<u8>,
    pub(crate) symbol: Vec<u8>,
}

impl Alphabet {
    /// The row this alphabet uses in a given mode.
    pub closed spec fn row(self, mode: AlphabetMode) -> Seq<u8> {
        match mode {
            AlphabetMode::Lowercase => self.lower@,
            AlphabetMode::Uppercase => self.upper@,
            AlphabetMode::Symbol => self.symbol@,
        }
    }

    /// Whether this alphabet is the one the story `mem` declares.
    pub open spec fn is_for(self, mem: Seq<u8>) -> bool {
        forall|mode: AlphabetMode| self.row(mode) == spec_alphabet_row(mem, mode)
    }

    /// Returns the letter at a particular index in a particular alphabet
    /// mode.
    pub fn letter_at_index(&self, idx: u8, mode: AlphabetMode) -> (r: char)
        requires
            idx < self.row(mode).len(),
        ensures
            r == self.row(mode)[idx as int] as char,
    {
        let b = match mode {
            AlphabetMode::Lowercase => self.lower[idx as usize],
            AlphabetMode::Uppercase => self.upper[idx as usize],
            AlphabetMode::Symbol => self.symbol[idx as usize],
        };
        b as char
    }

    /// Returns the letter for a particular Z-character in a particular
    /// alphabet mode. Z-characters 6 through 31 name letters; the rest are
    /// modifiers and are refused by the precondition.
    pub fn letter_for_zchar(&self, zchar: u8, mode: AlphabetMode) -> (r: char)
        requires
            6 <= zchar < 32,
            self.row(mode).len() == 26,
        ensures
            r == self.row(mode)[zchar - 6] as char,
    {
        self.letter_at_index(zchar - 6, mode)
    }
}

/// The Unicode table used for ZSCII characters over 154: entry `i`
/// translates ZSCII `155 + i`.
#[derive(Debug)]
pub struct UnicodeTable {
    pub(crate) codes: Vec<u16>,
}

impl View for UnicodeTable {
    type V = Seq<u16>;

    closed spec fn view(&self) -> Seq<u16> {
        self.codes@
    }
}

impl UnicodeTable {
    /// Returns the character at a particular index in the table, or
    /// [`None`] when the index is outside the table or the entry is not a
    /// character.
    pub fn char_at_index(&self, idx: u8) -> (r: Option<char>)
        ensures
            r == (if idx < self@.len() {
                char_from_code(self@[idx as int])
            } else {
                None::<char>
            }),
    {
        if (idx as usize) < self.codes.len() {
            let code = self.codes[idx as usize];
            if 0xD800 <= code && code <= 0xDFFF {
                None
            } else {
                match char_from_u32(code as u32) {
                    Some(c) => {
                        proof {
                            vstd::utf8::char_u32_cast(c, code as u32);
                        }
                        Some(c)
                    },
                    None => None,
                }
            }
        } else {
            None
        }
    }

    /// Converts an extended ZSCII character (155 and up) to a character
    /// through the table, or [`None`] when it has no entry.
    pub fn zscii_to_char(&self, zscii: u8) -> (r: Option<char>)
        ensures
            r == (if zscii >= 155 && zscii - 155 < self@.len() {
                char_from_code(self@[zscii - 155])
            } else {
                None::<char>
            }),
    {
        if zscii < 155 {
            None
        } else {
            self.char_at_index(zscii - 155)
        }
    }
}

impl ZMachine {
    /// Returns the alphabet in use by this story: the default rows, or the
    /// story's own 78-octet table in version 5 and later when one is
    /// declared and lies inside the image.
    pub fn alphabet(&self) -> (r: Alphabet)
        requires
            self.wf(),
        ensures
            r.is_for(self.mem()),
    {
        let v = self.version().number();
        let base = if v >= 5 {
            self.word(ByteAddress(consts::ALPHABET_TABLE_ADDRESS)) as usize
        } else {
            0
        };
        if v >= 5 && base != 0 && base + 78 <= self.memory.len() {
            let mut lower: Vec<u8> = Vec::new();
            let mut upper: Vec<u8> = Vec::new();
            let mut symbol: Vec<u8> = Vec::new();
            let mut i: usize = 0;
            while i < 26
                invariant
                    self.wf(),
                    i <= 26,
                    base + 78 <= self.mem().len(),
                    self.mem().len() <= usize::MAX,
                    lower@ =~= self.mem().subrange(base as int, base + i),
                    upper@ =~= self.mem().subrange(base + 26, base + 26 + i),
                    symbol@ =~= self.mem().subrange(base + 52, base + 52 + i),
                decreases 26 - i,
            {
                lower.push(self.memory[base + i]);
                upper.push(self.memory[base + 26 + i]);
                symbol.push(self.memory[base + 52 + i]);
                i = i + 1;
            }
            let r = Alphabet { lower, upper, symbol };
            proof {
                assert(r.row(AlphabetMode::Lowercase) =~= spec_alphabet_row(
                    self.mem(),
                    AlphabetMode::Lowercase,
                ));
                assert(r.row(AlphabetMode::Uppercase) =~= spec_alphabet_row(
                    self.mem(),
                    AlphabetMode::Uppercase,
                ));
                assert(r.row(AlphabetMode::Symbol) =~= spec_alphabet_row(
                    self.mem(),
                    AlphabetMode::Symbol,
                ));
                assert(forall|mode: AlphabetMode| r.row(mode) == spec_alphabet_row(
                    self.mem(),
                    mode,
                ));
            }
            r
        } else {
            proof {
                reveal(default_symbol_row);
            }
            let mut lower: Vec<u8> = Vec::new();
            let mut upper: Vec<u8> = Vec::new();
            let mut i: usize = 0;
            while i < 26
                invariant
                    i <= 26,
                    lower@ =~= default_lower_row().subrange(0, i as int),
                    upper@ =~= default_upper_row().subrange(0, i as int),
                decreases 26 - i,
            {
                lower.push(97 + i as u8);
                upper.push(65 + i as u8);
                i = i + 1;
            }
            let symbol: Vec<u8> = if v == 1 {
                vec![
                    32u8, 48u8, 49u8, 50u8, 51u8, 52u8, 53u8, 54u8, 55u8, 56u8, 57u8, 46u8, 44u8,
                    33u8, 63u8, 95u8, 35u8, 39u8, 34u8, 47u8, 92u8, 60u8, 45u8, 58u8, 40u8, 41u8,
                ]
            } else {
                vec![
                    32u8, 10u8, 48u8, 49u8, 50u8, 51u8, 52u8, 53u8, 54u8, 55u8, 56u8, 57u8, 46u8,
                    44u8, 33u8, 63u8, 95u8, 35u8, 39u8, 34u8, 47u8, 92u8, 45u8, 58u8, 40u8, 41u8,
                ]
            };
            let r = Alphabet { lower, upper, symbol };
            proof {
                assert(r.row(AlphabetMode::Lowercase) =~= spec_alphabet_row(
                    self.mem(),
                    AlphabetMode::Lowercase,
                ));
                assert(r.row(AlphabetMode::Uppercase) =~= spec_alphabet_row(
                    self.mem(),
                    AlphabetMode::Uppercase,
                ));
                assert(r.row(AlphabetMode::Symbol) =~= spec_alphabet_row(
                    self.mem(),
                    AlphabetMode::Symbol,
                ));
                assert(forall|mode: AlphabetMode| r.row(mode) == spec_alphabet_row(
                    self.mem(),
                    mode,
                ));
            }
            r
        }
    }

    /// Returns the Unicode translation table in use by this story: its own
    /// table when the header extension declares one inside the image, the
    /// standard table otherwise.
    pub fn unicode_table(&self) -> (r: UnicodeTable)
        requires
            self.wf(),
        ensures
            r@ == spec_unicode_codes(self.mem()),
    {
        let v = self.version().number();
        let n_mem = self.memory.len();
        let base: usize = if v < 5 {
            0
        } else {
            let ext = self.word(ByteAddress(consts::HEADER_EXTENSION_TABLE_ADDRESS)) as usize;
            if ext == 0 || ext + consts::HEADER_EXT_UNICODE_TRANSLATION_TABLE_LOCATION + 1
                >= n_mem {
                0
            } else {
                self.word(
                    ByteAddress(ext + consts::HEADER_EXT_UNICODE_TRANSLATION_TABLE_LOCATION),
                ) as usize
            }
        };
        if base != 0 && base < n_mem {
            let n = self.memory[base] as usize;
            if base + 1 + 2 * n <= n_mem {
                let mut codes: Vec<u16> = Vec::new();
                let mut i: usize = 0;
                while i < n
                    invariant
                        self.wf(),
                        i <= n,
                        base + 1 + 2 * n <= self.mem().len(),
                        self.mem().len() <= usize::MAX,
                        codes@ =~= Seq::new(i as nat, |j: int| word_at(self.mem(), base + 1 + 2
                            * j)),
                    decreases n - i,
                {
                    codes.push(self.word(ByteAddress(base + 1 + 2 * i)));
                    i = i + 1;
                }
                proof {
                    assert(codes@ =~= spec_unicode_codes(self.mem()));
                }
                return UnicodeTable { codes };
            }
        }
        let codes: Vec<u16> = vec![
            0xe4u16, 0xf6u16, 0xfcu16, 0xc4u16, 0xd6u16, 0xdcu16, 0xdfu16, 0xbbu16, 0xabu16,
            0xebu16, 0xefu16, 0xffu16, 0xcbu16, 0xcfu16, 0xe1u16, 0xe9u16, 0xedu16, 0xf3u16,
            0xfau16, 0xfdu16, 0xc1u16, 0xc9u16, 0xcdu16, 0xd3u16, 0xdau16, 0xddu16, 0xe0u16,
            0xe8u16, 0xecu16, 0xf2u16, 0xf9u16, 0xc0u16, 0xc8u16, 0xccu16, 0xd2u16, 0xd9u16,
            0xe2u16, 0xeau16, 0xeeu16, 0xf4u16, 0xfbu16, 0xc2u16, 0xcau16, 0xceu16, 0xd4u16,
            0xdbu16, 0xe5u16, 0xc5u16, 0xf8u16, 0xd8u16, 0xe3u16, 0xf1u16, 0xf5u16, 0xc3u16,
            0xd1u16, 0xd5u16, 0xe6u16, 0xc6u16, 0xe7u16, 0xc7u16, 0xfeu16, 0xf0u16, 0xdeu16,
            0xd0u16, 0xa3u16, 0x153u16, 0x152u16, 0xa1u16, 0xbfu16,
        ];
        proof {
            reveal(default_unicode_codes);
            assert(codes@ =~= default_unicode_codes());
            assert(codes@ =~= spec_unicode_codes(self.mem()));
        }
        UnicodeTable { codes }
    }

    /// Converts a ZSCII character into a `char`, or [`None`] when the code
    /// is not printable in this story and is skipped.
    pub fn zscii_char(&self, zscii: u16) -> (r: Option<char>)
        requires
            self.wf(),
        ensures
            r == spec_zscii_char(self.mem(), zscii),
    {
        proof {
            reveal(spec_zscii_char);
        }
        let v = self.version().number();
        if zscii == 9 {
            if v == 6 {
                Some('\t')
            } else {
                None
            }
        } else if zscii == 11 {
            if v == 6 {
                Some(' ')
            } else {
                None
            }
        } else if zscii == 13 {
            Some('\n')
        } else if 32 <= zscii && zscii <= 126 {
            Some((zscii as u8) as char)
        } else if 155 <= zscii && zscii <= 251 {
            self.unicode_table().zscii_to_char(zscii as u8)
        } else {
            None
        }
    }
}
/// The three 5-bit Z-characters packed in a story word, high to low.
pub open spec fn zchars_of_word(w: u16) -> Seq<u8> {
    seq![((w >> 10u16) & 0x1Fu16) as u8, ((w >> 5u16) & 0x1Fu16) as u8, (w & 0x1Fu16) as u8]
}

/// Whether a story word carries the end-of-string mark (bit 15).
pub open spec fn word_is_end(w: u16) -> bool {
    w & 0x8000u16 == 0x8000u16
}

/// The alphabet one step above: lower, upper, symbol, and around.
pub open spec fn rotate_up(m: AlphabetMode) -> AlphabetMode {
    match m {
        AlphabetMode::Lowercase => AlphabetMode::Uppercase,
        AlphabetMode::Uppercase => AlphabetMode::Symbol,
        AlphabetMode::Symbol => AlphabetMode::Lowercase,
    }
}

/// The alphabet one step below: the inverse of [`rotate_up`].
pub open spec fn rotate_down(m: AlphabetMode) -> AlphabetMode {
    match m {
        AlphabetMode::Lowercase => AlphabetMode::Symbol,
        AlphabetMode::Uppercase => AlphabetMode::Lowercase,
        AlphabetMode::Symbol => AlphabetMode::Uppercase,
    }
}

/// The ten-bit ZSCII code assembled from its high and low five bits.
pub open spec fn ten_bit_code(hi: u8, lo: u8) -> u16 {
    ((hi as int) * 32 + (lo as int)) as u16
}

/// Whether a pending modifier may not be left open by the terminating
/// word: a truncated ten-bit escape or a dangling abbreviation bank is a
/// malformed Z-string, while a dangling one-shot shift is ordinary padding.
pub open spec fn state_incomplete(st: ZStringState) -> bool {
    match st {
        ZStringState::TenBitHigh => true,
        ZStringState::TenBitLow(_) => true,
        ZStringState::Abbreviation(_) => true,
        _ => false,
    }
}

/// The byte address of abbreviation entry `idx` in the abbreviations table.
pub open spec fn spec_abbrev_entry(mem: Seq<u8>, idx: int) -> int {
    word_at(mem, consts::ABBREVIATIONS_LOCATION as int) + 2 * idx
}

/// The byte address of the Z-string abbreviation entry `idx` references:
/// the table holds word addresses, so the entry is doubled.
pub open spec fn spec_abbrev_target(mem: Seq<u8>, idx: int) -> int {
    2 * word_at(mem, spec_abbrev_entry(mem, idx))
}

/// An ordering measure: recursion may pass from abbreviation-allowing
/// decoding into abbreviation-refusing decoding, never back.
pub open spec fn allow_measure(allow: bool) -> int {
    if allow {
        1
    } else {
        0
    }
}

/// What one Z-character does to the decoder in printable position, where
/// `mode` is the running alphabet and `cm` the alphabet for this character
/// (they differ just after a one-shot shift). Yields the new running
/// alphabet, the new pending modifier, and the emitted text.
#[verifier::opaque]
pub open spec fn printable_step(mem: Seq<u8>, zc: u8, mode: AlphabetMode, cm: AlphabetMode) -> (
    AlphabetMode,
    ZStringState,
    Seq<char>,
) {
    let v = version_number(mem);
    if zc == 0 {
        (mode, ZStringState::Unset, seq![' '])
    } else if zc == 1 {
        if v == 1 {
            (mode, ZStringState::Unset, seq!['\n'])
        } else {
            (mode, ZStringState::Abbreviation(1), Seq::<char>::empty())
        }
    } else if zc == 2 {
        if v >= 3 {
            (mode, ZStringState::Abbreviation(2), Seq::<char>::empty())
        } else {
            (rotate_up(mode), ZStringState::Unset, Seq::<char>::empty())
        }
    } else if zc == 3 {
        if v >= 3 {
            (mode, ZStringState::Abbreviation(3), Seq::<char>::empty())
        } else {
            (rotate_down(mode), ZStringState::Unset, Seq::<char>::empty())
        }
    } else if zc == 4 {
        if v >= 3 {
            (mode, ZStringState::ModeShift(rotate_up(mode)), Seq::<char>::empty())
        } else {
            (mode, ZStringState::Unset, Seq::<char>::empty())
        }
    } else if zc == 5 {
        if v >= 3 {
            (mode, ZStringState::ModeShift(rotate_down(mode)), Seq::<char>::empty())
        } else {
            (mode, ZStringState::Unset, Seq::<char>::empty())
        }
    } else if zc == 6 && cm == AlphabetMode::Symbol {
        (mode, ZStringState::TenBitHigh, Seq::<char>::empty())
    } else {
        (mode, ZStringState::Unset, seq![spec_alphabet_row(mem, cm)[zc - 6] as char])
    }
}

/// What one Z-character does to the decoder: the new running alphabet, the
/// new pending modifier, and the emitted text; or [`None`] on a malformed
/// string (an out-of-range abbreviation, an abbreviation inside an
/// abbreviation, or an abbreviation whose entry or string lies out of
/// bounds).
pub open spec fn zchar_step(
    mem: Seq<u8>,
    zc: u8,
    mode: AlphabetMode,
    st: ZStringState,
    allow: bool,
) -> Option<(AlphabetMode, ZStringState, Seq<char>)>
    decreases allow_measure(allow), 0int, 0int,
{
    match st {
        ZStringState::TenBitHigh => Some(
            (mode, ZStringState::TenBitLow(zc), Seq::<char>::empty()),
        ),
        ZStringState::TenBitLow(hi) => {
            let text = match spec_zscii_char(mem, ten_bit_code(hi, zc)) {
                Some(c) => seq![c],
                None => Seq::<char>::empty(),
            };
            Some((mode, ZStringState::Unset, text))
        },
        ZStringState::Abbreviation(bank) => {
            if !allow || bank < 1 || bank > 3 {
                None
            } else {
                let idx = (bank - 1) as int * 32 + zc as int;
                if version_number(mem) < 3 && idx >= 32 {
                    None
                } else if spec_abbrev_entry(mem, idx) + 1 >= mem.len() {
                    None
                } else {
                    match decode_words(
                        mem,
                        spec_abbrev_target(mem, idx),
                        AlphabetMode::Lowercase,
                        ZStringState::Unset,
                        false,
                    ) {
                        None => None,
                        Some((t, k)) => Some((mode, ZStringState::Unset, t)),
                    }
                }
            }
        },
        ZStringState::ModeShift(m) => Some(printable_step(mem, zc, mode, m)),
        ZStringState::Unset => Some(printable_step(mem, zc, mode, mode)),
    }
}

/// Decodes the Z-characters still pending from the current story word at
/// byte address `a`, then the following words. `last` tells whether the
/// current word carries the end mark. Yields the decoded text and the
/// number of story words consumed after the current one, or [`None`] on a
/// malformed string.
pub open spec fn decode_chars(
    mem: Seq<u8>,
    a: int,
    pending: Seq<u8>,
    last: bool,
    mode: AlphabetMode,
    st: ZStringState,
    allow: bool,
) -> Option<(Seq<char>, nat)>
    decreases allow_measure(allow), mem.len() - a + 1, pending.len(),
{
    if a < 0 || a + 2 > mem.len() {
        None
    } else if pending.len() == 0 {
        if last {
            if state_incomplete(st) {
                None
            } else {
                Some((Seq::<char>::empty(), 0))
            }
        } else {
            decode_words(mem, a + 2, mode, st, allow)
        }
    } else {
        match zchar_step(mem, pending[0], mode, st, allow) {
            None => None,
            Some((m2, s2, txt)) => match decode_chars(
                mem,
                a,
                pending.drop_first(),
                last,
                m2,
                s2,
                allow,
            ) {
                None => None,
                Some((t, k)) => Some((txt + t, k)),
            },
        }
    }
}

/// Decodes the Z-string whose next word sits at byte address `a`, in
/// decoder state (`mode`, `st`). Yields the decoded text and the number of
/// story words up to and including the terminator, or [`None`] on a
/// malformed string or when the string runs past the image end.
pub open spec fn decode_words(
    mem: Seq<u8>,
    a: int,
    mode: AlphabetMode,
    st: ZStringState,
    allow: bool,
) -> Option<(Seq<char>, nat)>
    decreases allow_measure(allow), mem.len() - a + 2, 0int,
{
    if a < 0 || a + 2 > mem.len() {
        None
    } else {
        let w = word_at(mem, a);
        match decode_chars(mem, a, zchars_of_word(w), word_is_end(w), mode, st, allow) {
            None => None,
            Some((t, k)) => Some((t, (k + 1) as nat)),
        }
    }
}

/// The text and word count of the Z-string at byte address `a`, or
/// [`None`] when no valid Z-string starts there.
pub open spec fn spec_zstring(mem: Seq<u8>, a: int) -> Option<(Seq<char>, nat)> {
    decode_words(mem, a, AlphabetMode::Lowercase, ZStringState::Unset, true)
}

/// Stepping the first pending Z-character peels it off: the decoded text
/// is the step's text followed by the rest.
pub proof fn lemma_chars_cons(
    mem: Seq<u8>,
    a: int,
    zc: u8,
    rest: Seq<u8>,
    last: bool,
    mode: AlphabetMode,
    st: ZStringState,
    allow: bool,
    m2: AlphabetMode,
    s2: ZStringState,
    txt: Seq<char>,
)
    requires
        0 <= a,
        a + 2 <= mem.len(),
        zchar_step(mem, zc, mode, st, allow) == Some((m2, s2, txt)),
    ensures
        decode_chars(mem, a, seq![zc] + rest, last, mode, st, allow) == (match decode_chars(
            mem,
            a,
            rest,
            last,
            m2,
            s2,
            allow,
        ) {
            None => None::<(Seq<char>, nat)>,
            Some((t, k)) => Some((txt + t, k)),
        }),
{
    assert((seq![zc] + rest)[0] == zc);
    assert((seq![zc] + rest).drop_first() =~= rest);
}

/// A Z-character the state machine refuses poisons the whole word: when
/// one of the word's three characters steps to a fault, the word decodes
/// to a fault.
proof fn lemma_decode_word_fails_early(
    mem: Seq<u8>,
    a: int,
    w: u16,
    z1: u8,
    z2: u8,
    z3: u8,
    mode0: AlphabetMode,
    st0: ZStringState,
    allow: bool,
)
    requires
        0 <= a,
        a + 2 <= mem.len(),
        w == word_at(mem, a),
        zchars_of_word(w) == seq![z1, z2, z3],
        match zchar_step(mem, z1, mode0, st0, allow) {
            None => true,
            Some((m1, s1, _)) => match zchar_step(mem, z2, m1, s1, allow) {
                None => true,
                Some((m2, s2, _)) => zchar_step(mem, z3, m2, s2, allow) is None,
            },
        },
    ensures
        decode_words(mem, a, mode0, st0, allow) is None,
{
    let last = word_is_end(w);
    assert(seq![z1, z2, z3].drop_first() =~= seq![z2, z3]);
    assert(seq![z2, z3].drop_first() =~= seq![z3]);
    match zchar_step(mem, z1, mode0, st0, allow) {
        None => {
            assert(decode_chars(mem, a, seq![z1, z2, z3], last, mode0, st0, allow) is None);
        },
        Some((m1, s1, _)) => {
            match zchar_step(mem, z2, m1, s1, allow) {
                None => {
                    assert(decode_chars(mem, a, seq![z2, z3], last, m1, s1, allow) is None);
                },
                Some((m2, s2, _)) => {
                    assert(decode_chars(mem, a, seq![z3], last, m2, s2, allow) is None);
                    assert(decode_chars(mem, a, seq![z2, z3], last, m1, s1, allow) is None);
                },
            }
            assert(decode_chars(mem, a, seq![z1, z2, z3], last, mode0, st0, allow) is None);
        },
    }
}

/// Unrolls one story word of the decoder: stepping through the word's
/// three Z-characters decodes the word, emitting the three steps' text in
/// order.
#[verifier::rlimit(100)]
#[verifier::spinoff_prover]
proof fn lemma_decode_word_chain(
    mem: Seq<u8>,
    a: int,
    w: u16,
    z1: u8,
    z2: u8,
    z3: u8,
    mode0: AlphabetMode,
    st0: ZStringState,
    mode1: AlphabetMode,
    st1: ZStringState,
    mode2: AlphabetMode,
    st2: ZStringState,
    mode3: AlphabetMode,
    st3: ZStringState,
    allow: bool,
    d1: Seq<char>,
    d2: Seq<char>,
    d3: Seq<char>,
)
    requires
        0 <= a,
        a + 2 <= mem.len(),
        w == word_at(mem, a),
        zchars_of_word(w) == seq![z1, z2, z3],
        zchar_step(mem, z1, mode0, st0, allow) == Some((mode1, st1, d1)),
        zchar_step(mem, z2, mode1, st1, allow) == Some((mode2, st2, d2)),
        zchar_step(mem, z3, mode2, st2, allow) == Some((mode3, st3, d3)),
    ensures
        decode_words(mem, a, mode0, st0, allow) == (match decode_chars(
            mem,
            a,
            Seq::<u8>::empty(),
            word_is_end(w),
            mode3,
            st3,
            allow,
        ) {
            None => None::<(Seq<char>, nat)>,
            Some((t, k)) => Some((d1 + d2 + d3 + t, (k + 1) as nat)),
        }),
{
    let last = word_is_end(w);
    lemma_decode_word_chars(mem, a, z1, z2, z3, last, mode0, st0, mode1, st1, mode2, st2, mode3,
        st3, allow, d1, d2, d3);
    let c_full = decode_chars(mem, a, seq![z1, z2, z3], last, mode0, st0, allow);
    assert(decode_words(mem, a, mode0, st0, allow) == (match c_full {
        None => None::<(Seq<char>, nat)>,
        Some((t, k)) => Some((t, (k + 1) as nat)),
    }));
}

/// Unrolls the last two Z-characters of one story word at the character
/// level.
#[verifier::rlimit(100)]
#[verifier::spinoff_prover]
proof fn lemma_decode_word_chars_two(
    mem: Seq<u8>,
    a: int,
    z2: u8,
    z3: u8,
    last: bool,
    mode1: AlphabetMode,
    st1: ZStringState,
    mode2: AlphabetMode,
    st2: ZStringState,
    mode3: AlphabetMode,
    st3: ZStringState,
    allow: bool,
    d2: Seq<char>,
    d3: Seq<char>,
)
    requires
        0 <= a,
        a + 2 <= mem.len(),
        zchar_step(mem, z2, mode1, st1, allow) == Some((mode2, st2, d2)),
        zchar_step(mem, z3, mode2, st2, allow) == Some((mode3, st3, d3)),
    ensures
        decode_chars(mem, a, seq![z2, z3], last, mode1, st1, allow) == (match decode_chars(
            mem,
            a,
            Seq::<u8>::empty(),
            last,
            mode3,
            st3,
            allow,
        ) {
            None => None::<(Seq<char>, nat)>,
            Some((t, k)) => Some((d2 + (d3 + t), k)),
        }),
{
    assert(seq![z2, z3] =~= seq![z2] + seq![z3]);
    assert(seq![z3] =~= seq![z3] + Seq::<u8>::empty());
    lemma_chars_cons(mem, a, z3, Seq::<u8>::empty(), last, mode2, st2, allow, mode3, st3, d3);
    lemma_chars_cons(mem, a, z2, seq![z3], last, mode1, st1, allow, mode2, st2, d2);
}

/// Unrolls the three Z-characters of one story word at the character
/// level: the word's pending characters decode to the three steps' text
/// followed by whatever the word boundary yields.
#[verifier::rlimit(100)]
#[verifier::spinoff_prover]
proof fn lemma_decode_word_chars(
    mem: Seq<u8>,
    a: int,
    z1: u8,
    z2: u8,
    z3: u8,
    last: bool,
    mode0: AlphabetMode,
    st0: ZStringState,
    mode1: AlphabetMode,
    st1: ZStringState,
    mode2: AlphabetMode,
    st2: ZStringState,
    mode3: AlphabetMode,
    st3: ZStringState,
    allow: bool,
    d1: Seq<char>,
    d2: Seq<char>,
    d3: Seq<char>,
)
    requires
        0 <= a,
        a + 2 <= mem.len(),
        zchar_step(mem, z1, mode0, st0, allow) == Some((mode1, st1, d1)),
        zchar_step(mem, z2, mode1, st1, allow) == Some((mode2, st2, d2)),
        zchar_step(mem, z3, mode2, st2, allow) == Some((mode3, st3, d3)),
    ensures
        decode_chars(mem, a, seq![z1, z2, z3], last, mode0, st0, allow) == (match decode_chars(
            mem,
            a,
            Seq::<u8>::empty(),
            last,
            mode3,
            st3,
            allow,
        ) {
            None => None::<(Seq<char>, nat)>,
            Some((t, k)) => Some((d1 + d2 + d3 + t, k)),
        }),
{
    lemma_decode_word_chars_two(mem, a, z2, z3, last, mode1, st1, mode2, st2, mode3, st3, allow,
        d2, d3);
    assert(seq![z1, z2, z3] =~= seq![z1] + seq![z2, z3]);
    lemma_chars_cons(mem, a, z1, seq![z2, z3], last, mode0, st0, allow, mode1, st1, d1);
    let c3 = decode_chars(mem, a, Seq::<u8>::empty(), last, mode3, st3, allow);
    if c3 is Some {
        let (t, k) = c3->Some_0;
        assert(d1 + (d2 + (d3 + t)) =~= d1 + d2 + d3 + t);
    }
}

/// Relies on String's collect over an iterator of characters: the result
/// holds exactly those characters.
#[verifier::external_body]
fn chars_to_string(chars: &Vec<char>) -> (r: String)
    ensures
        r@ == chars@,
{
    chars.iter().collect()
}

impl ZMachine {
    /// Runs one Z-character through the decoder. `mode` is the running
    /// alphabet and `state` the pending modifier; both are updated, and any
    /// emitted text is pushed onto `out`. Returns false on a malformed
    /// string, exactly where [`zchar_step`] is [`None`].
    pub fn decode_zchar(
        &self,
        zc: u8,
        mode: &mut AlphabetMode,
        state: &mut ZStringState,
        alphabet: &Alphabet,
        out: &mut Vec<char>,
        allow_abbrev: bool,
    ) -> (r: bool)
        requires
            self.wf(),
            alphabet.is_for(self.mem()),
            zc < 32,
        ensures
            match zchar_step(self.mem(), zc, *old(mode), *old(state), allow_abbrev) {
                Some((m2, s2, txt)) => {
                    &&& r
                    &&& *final(mode) == m2
                    &&& *final(state) == s2
                    &&& final(out)@ == old(out)@ + txt
                },
                None => !r,
            },
        decreases allow_measure(allow_abbrev), 0int,
    {
        match *state {
            ZStringState::TenBitHigh => {
                *state = ZStringState::TenBitLow(zc);
                true
            },
            ZStringState::TenBitLow(hi) => {
                let code: u16 = (hi as u16) * 32 + (zc as u16);
                proof {
                    assert(code == ten_bit_code(hi, zc));
                }
                match self.zscii_char(code) {
                    Some(c) => out.push(c),
                    None => (),
                }
                *state = ZStringState::Unset;
                true
            },
            ZStringState::Abbreviation(bank) => {
                if !allow_abbrev || bank < 1 || bank > 3 {
                    return false;
                }
                let idx: usize = (bank as usize - 1) * 32 + zc as usize;
                let v = self.version().number();
                if v < 3 && idx >= 32 {
                    return false;
                }
                let entry: usize = self.get_abbreviations_table_base().addr() + 2 * idx;
                if entry + 1 >= self.memory.len() {
                    return false;
                }
                let target: usize = 2 * (self.word(ByteAddress(entry)) as usize);
                match self.decode_zstring_inner(target, false, out) {
                    Some(_) => {
                        *state = ZStringState::Unset;
                        true
                    },
                    None => false,
                }
            },
            ZStringState::ModeShift(m) => {
                self.decode_printable(zc, mode, state, alphabet, out, m);
                true
            },
            ZStringState::Unset => {
                let cm = *mode;
                self.decode_printable(zc, mode, state, alphabet, out, cm);
                true
            },
        }
    }

    /// Runs one Z-character through the decoder in printable position,
    /// with `cm` as the alphabet for this character.
    fn decode_printable(
        &self,
        zc: u8,
        mode: &mut AlphabetMode,
        state: &mut ZStringState,
        alphabet: &Alphabet,
        out: &mut Vec<char>,
        cm: AlphabetMode,
    )
        requires
            self.wf(),
            alphabet.is_for(self.mem()),
            zc < 32,
        ensures
            ({
                let (m2, s2, txt) = printable_step(self.mem(), zc, *old(mode), cm);
                &&& *final(mode) == m2
                &&& *final(state) == s2
                &&& final(out)@ == old(out)@ + txt
            }),
    {
        proof {
            reveal(printable_step);
        }
        let v = self.version().number();
        if zc == 0 {
            out.push(' ');
            *state = ZStringState::Unset;
        } else if zc == 1 {
            if v == 1 {
                out.push('\n');
                *state = ZStringState::Unset;
            } else {
                *state = ZStringState::Abbreviation(1);
            }
        } else if zc == 2 {
            if v >= 3 {
                *state = ZStringState::Abbreviation(2);
            } else {
                *mode = match *mode {
                    AlphabetMode::Lowercase => AlphabetMode::Uppercase,
                    AlphabetMode::Uppercase => AlphabetMode::Symbol,
                    AlphabetMode::Symbol => AlphabetMode::Lowercase,
                };
                *state = ZStringState::Unset;
            }
        } else if zc == 3 {
            if v >= 3 {
                *state = ZStringState::Abbreviation(3);
            } else {
                *mode = match *mode {
                    AlphabetMode::Lowercase => AlphabetMode::Symbol,
                    AlphabetMode::Uppercase => AlphabetMode::Lowercase,
                    AlphabetMode::Symbol => AlphabetMode::Uppercase,
                };
                *state = ZStringState::Unset;
            }
        } else if zc == 4 {
            if v >= 3 {
                *state = ZStringState::ModeShift(
                    match *mode {
                        AlphabetMode::Lowercase => AlphabetMode::Uppercase,
                        AlphabetMode::Uppercase => AlphabetMode::Symbol,
                        AlphabetMode::Symbol => AlphabetMode::Lowercase,
                    },
                );
            } else {
                *state = ZStringState::Unset;
            }
        } else if zc == 5 {
            if v >= 3 {
                *state = ZStringState::ModeShift(
                    match *mode {
                        AlphabetMode::Lowercase => AlphabetMode::Symbol,
                        AlphabetMode::Uppercase => AlphabetMode::Lowercase,
                        AlphabetMode::Symbol => AlphabetMode::Uppercase,
                    },
                );
            } else {
                *state = ZStringState::Unset;
            }
        } else if zc == 6 && matches!(cm, AlphabetMode::Symbol) {
            *state = ZStringState::TenBitHigh;
        } else {
            proof {
                lemma_alphabet_row_len(self.mem(), cm);
            }
            out.push(alphabet.letter_for_zchar(zc, cm));
            *state = ZStringState::Unset;
        }
    }

    /// Decodes one story word: its three Z-characters, in order. Returns
    /// whether the word carries the end mark, or [`None`] on a malformed
    /// string.
    #[verifier::rlimit(60)]
    #[verifier::spinoff_prover]
    fn decode_word(
        &self,
        a: usize,
        mode: &mut AlphabetMode,
        state: &mut ZStringState,
        alphabet: &Alphabet,
        out: &mut Vec<char>,
        allow_abbrev: bool,
    ) -> (r: Option<bool>)
        requires
            self.wf(),
            alphabet.is_for(self.mem()),
        ensures
            match r {
                None => decode_words(
                    self.mem(),
                    a as int,
                    *old(mode),
                    *old(state),
                    allow_abbrev,
                ) is None,
                Some(last) => {
                    &&& a + 2 <= self.mem().len()
                    &&& final(out)@.len() >= old(out)@.len()
                    &&& final(out)@.subrange(0, old(out)@.len() as int) == old(out)@
                    &&& if last {
                        decode_words(self.mem(), a as int, *old(mode), *old(state), allow_abbrev)
                            == Some(
                            (final(out)@.skip(old(out)@.len() as int), 1nat),
                        )
                    } else {
                        decode_words(self.mem(), a as int, *old(mode), *old(state), allow_abbrev)
                            == (match decode_words(
                            self.mem(),
                            a + 2,
                            *final(mode),
                            *final(state),
                            allow_abbrev,
                        ) {
                            None => None::<(Seq<char>, nat)>,
                            Some((t, k)) => Some(
                                (final(out)@.skip(old(out)@.len() as int) + t, (k + 1) as nat),
                            ),
                        })
                    }
                },
            },
        decreases allow_measure(allow_abbrev), 1int,
    {
        let ghost m = self.mem();
        let w = match self.try_word(ByteAddress(a)) {
            Some(w) => w,
            None => {
                return None;
            },
        };
        proof {
            assert(((w >> 10u16) & 0x1Fu16) < 32 && ((w >> 5u16) & 0x1Fu16) < 32 && (w & 0x1Fu16)
                < 32) by (bit_vector);
        }
        let z1: u8 = ((w >> 10) & 0x1F) as u8;
        let z2: u8 = ((w >> 5) & 0x1F) as u8;
        let z3: u8 = (w & 0x1F) as u8;
        let last: bool = (w & 0x8000) != 0;
        let ghost out0 = out@;
        let ghost mode0 = *mode;
        let ghost st0 = *state;
        proof {
            assert(last == word_is_end(w)) by (bit_vector)
                requires
                    last == ((w & 0x8000u16) != 0),
            ;
            assert(zchars_of_word(w) =~= seq![z1, z2, z3]);
        }
        let ok1 = self.decode_zchar(z1, mode, state, alphabet, out, allow_abbrev);
        if !ok1 {
            proof {
                lemma_decode_word_fails_early(m, a as int, w, z1, z2, z3, mode0, st0, allow_abbrev);
            }
            return None;
        }
        let ghost out1 = out@;
        let ghost mode1 = *mode;
        let ghost st1 = *state;
        let ok2 = self.decode_zchar(z2, mode, state, alphabet, out, allow_abbrev);
        if !ok2 {
            proof {
                lemma_decode_word_fails_early(m, a as int, w, z1, z2, z3, mode0, st0, allow_abbrev);
            }
            return None;
        }
        let ghost out2 = out@;
        let ghost mode2 = *mode;
        let ghost st2 = *state;
        let ok3 = self.decode_zchar(z3, mode, state, alphabet, out, allow_abbrev);
        if !ok3 {
            proof {
                lemma_decode_word_fails_early(m, a as int, w, z1, z2, z3, mode0, st0, allow_abbrev);
            }
            return None;
        }
        proof {
            let s1 = zchar_step(m, z1, mode0, st0, allow_abbrev);
            let (m1x, s1x, t1) = s1->Some_0;
            assert(out1.skip(out0.len() as int) =~= t1);
            let s2 = zchar_step(m, z2, mode1, st1, allow_abbrev);
            let (m2x, s2x, t2) = s2->Some_0;
            assert(out2.skip(out1.len() as int) =~= t2);
            let s3 = zchar_step(m, z3, mode2, st2, allow_abbrev);
            let (m3x, s3x, t3) = s3->Some_0;
            assert(out@.skip(out2.len() as int) =~= t3);
            lemma_decode_word_chain(m, a as int, w, z1, z2, z3, mode0, st0, mode1, st1, mode2,
                st2, *mode, *state, allow_abbrev, out1.skip(out0.len() as int), out2.skip(
                out1.len() as int), out@.skip(out2.len() as int));
            assert(out1.skip(out0.len() as int) + out2.skip(out1.len() as int) + out@.skip(
                out2.len() as int) =~= out@.skip(out0.len() as int));
        }
        if last {
            let incomplete = match *state {
                ZStringState::TenBitHigh => true,
                ZStringState::TenBitLow(_) => true,
                ZStringState::Abbreviation(_) => true,
                _ => false,
            };
            if incomplete {
                return None;
            }
            proof {
                assert(out@.skip(out0.len() as int) + Seq::<char>::empty() =~= out@.skip(
                    out0.len() as int,
                ));
            }
            Some(true)
        } else {
            Some(false)
        }
    }

    /// Decodes the Z-string at byte address `addr` into `out` and returns
    /// the number of story words consumed, or [`None`] on a malformed
    /// string (in which case `out` may hold a decoded prefix).
    fn decode_zstring_inner(&self, addr: usize, allow_abbrev: bool, out: &mut Vec<char>) -> (r:
        Option<usize>)
        requires
            self.wf(),
        ensures
            match r {
                Some(k) => decode_words(
                    self.mem(),
                    addr as int,
                    AlphabetMode::Lowercase,
                    ZStringState::Unset,
                    allow_abbrev,
                ) matches Some((t, kk)) && final(out)@ == old(out)@ + t && k == kk && addr + 2 * kk
                    <= self.mem().len(),
                None => decode_words(
                    self.mem(),
                    addr as int,
                    AlphabetMode::Lowercase,
                    ZStringState::Unset,
                    allow_abbrev,
                ) is None,
            },
        decreases allow_measure(allow_abbrev), 2int,
    {
        let ghost m = self.mem();
        let n = self.memory.len();
        let alphabet = self.alphabet();
        let mut a: usize = addr;
        let mut mode = AlphabetMode::Lowercase;
        let mut st = ZStringState::Unset;
        let mut words: usize = 0;
        let ghost orig = out@;
        loop
            invariant
                self.wf(),
                alphabet.is_for(m),
                m == self.mem(),
                n == m.len(),
                orig == old(out)@,
                out@.len() >= orig.len(),
                out@.subrange(0, orig.len() as int) == orig,
                a == addr + 2 * words,
                decode_words(
                    m,
                    addr as int,
                    AlphabetMode::Lowercase,
                    ZStringState::Unset,
                    allow_abbrev,
                ) == (match decode_words(m, a as int, mode, st, allow_abbrev) {
                    None => None::<(Seq<char>, nat)>,
                    Some((t, k)) => Some(
                        (out@.skip(orig.len() as int) + t, (words + k) as nat),
                    ),
                }),
            decreases m.len() - a,
        {
            let ghost out0 = out@;
            let ghost mode0 = mode;
            let ghost st0 = st;
            let step = self.decode_word(a, &mut mode, &mut st, &alphabet, out, allow_abbrev);
            match step {
                None => {
                    return None;
                },
                Some(true) => {
                    proof {
                        assert(out@.subrange(0, out0.len() as int) == out0);
                        assert forall|i: int| 0 <= i < out0.len() implies out@[i] == out0[i] by {
                            assert(out@.subrange(0, out0.len() as int)[i] == out@[i]);
                        }
                        assert(out0.skip(orig.len() as int) + out@.skip(out0.len() as int)
                            =~= out@.skip(orig.len() as int));
                        assert(out@ =~= orig + out@.skip(orig.len() as int));
                        let total = decode_words(
                            m,
                            addr as int,
                            AlphabetMode::Lowercase,
                            ZStringState::Unset,
                            allow_abbrev,
                        );
                        assert(total == Some(
                            (out@.skip(orig.len() as int), (words + 1) as nat),
                        ));
                        assert(out@ == orig + out@.skip(orig.len() as int));
                    }
                    return Some(words + 1);
                },
                Some(false) => {
                    proof {
                        let c = decode_words(m, a + 2, mode, st, allow_abbrev);
                        if c is Some {
                            let (t, k) = c->Some_0;
                            assert(out0.skip(orig.len() as int) + (out@.skip(out0.len() as int)
                                + t) =~= out@.skip(orig.len() as int) + t);
                        }
                    }
                    a = a + 2;
                    words = words + 1;
                },
            }
        }
    }
}

/// An abbreviation identifier for a Z-string: an index into the
/// abbreviation table. Indices run from 0 to 95; story versions before 3
/// only reach the first 32 (see [`ZMachine::is_abbrv_valid`]).
#[derive(Debug, Copy, Clone, PartialEq, Eq, Structural)]
pub struct ZStringAbbrv(pub(crate) u8);

impl ZStringAbbrv {
    /// The index this abbreviation carries.
    pub closed spec fn spec_idx(self) -> u8 {
        self.0
    }

    /// Creates a new abbreviation. Valid numbers are in `0..96`; a higher
    /// index yields [`None`].
    pub fn new(idx: u8) -> (r: Option<Self>)
        ensures
            match r {
                Some(a) => idx < 96 && a.spec_idx() == idx,
                None => idx >= 96,
            },
    {
        if idx >= 96 {
            None
        } else {
            Some(ZStringAbbrv(idx))
        }
    }

    /// This abbreviation's index (i.e. the word-sized offset in the
    /// abbreviation table).
    pub fn idx(&self) -> (r: u8)
        ensures
            r == self.spec_idx(),
    {
        self.0
    }
}

/// The text and word count of the Z-string that abbreviation entry `idx`
/// references, or [`None`] when the entry lies out of bounds or no valid
/// Z-string starts at its target.
pub open spec fn spec_abbrev_string(mem: Seq<u8>, idx: int) -> Option<(Seq<char>, nat)> {
    if spec_abbrev_entry(mem, idx) + 1 >= mem.len() {
        None
    } else {
        spec_zstring(mem, spec_abbrev_target(mem, idx))
    }
}

impl ZMachine {
    /// Checks whether a Z-string abbreviation is valid for this story. An
    /// abbreviation is always valid in version 3 and later; before that,
    /// only indices below 32 are.
    pub fn is_abbrv_valid(&self, abbrv: ZStringAbbrv) -> (r: bool)
        requires
            self.wf(),
        ensures
            r == (version_number(self.mem()) >= 3 || abbrv.spec_idx() < 32),
    {
        let v = self.version().number();
        v >= 3 || abbrv.idx() < 32
    }

    /// Copies the Z-string a particular abbreviation references into a
    /// string buffer. Returns false, leaving the buffer unchanged, when
    /// the entry or its string lies out of bounds or is malformed. The
    /// abbreviation must be valid for this story.
    pub fn copy_abbrvd_zstring(&self, abbrv: ZStringAbbrv, str: &mut String) -> (r: bool)
        requires
            self.wf(),
            version_number(self.mem()) >= 3 || abbrv.spec_idx() < 32,
        ensures
            r == spec_abbrev_string(self.mem(), abbrv.spec_idx() as int) is Some,
            match spec_abbrev_string(self.mem(), abbrv.spec_idx() as int) {
                Some((t, _)) => final(str)@ == old(str)@ + t,
                None => final(str)@ == old(str)@,
            },
    {
        let entry: usize = self.get_abbreviations_table_base().addr() + 2 * (abbrv.idx() as usize);
        if entry + 1 >= self.memory.len() {
            return false;
        }
        let target: usize = 2 * (self.word(ByteAddress(entry)) as usize);
        self.copy_zstring(ByteAddress(target), str)
    }

    /// Returns the Z-string a particular abbreviation references, or
    /// [`None`] when the entry or its string lies out of bounds or is
    /// malformed. The abbreviation must be valid for this story.
    pub fn abbrvd_zstring(&self, abbrv: ZStringAbbrv) -> (r: Option<String>)
        requires
            self.wf(),
            version_number(self.mem()) >= 3 || abbrv.spec_idx() < 32,
        ensures
            match r {
                Some(s) => spec_abbrev_string(self.mem(), abbrv.spec_idx() as int) matches Some(
                    (t, _),
                ) && s@ == t,
                None => spec_abbrev_string(self.mem(), abbrv.spec_idx() as int) is None,
            },
    {
        let mut s = String::new();
        if self.copy_abbrvd_zstring(abbrv, &mut s) {
            Some(s)
        } else {
            None
        }
    }

    /// Copies the Z-string at a particular address into a string buffer.
    /// Returns true on success; on a malformed string or one that runs
    /// past the image end it returns false and leaves the buffer
    /// unchanged.
    pub fn copy_zstring(&self, addr: ByteAddress, string: &mut String) -> (r: bool)
        requires
            self.wf(),
        ensures
            r == spec_zstring(self.mem(), addr.0 as int) is Some,
            match spec_zstring(self.mem(), addr.0 as int) {
                Some((t, _)) => final(string)@ == old(string)@ + t,
                None => final(string)@ == old(string)@,
            },
    {
        let mut buf: Vec<char> = Vec::new();
        match self.decode_zstring_inner(addr.0, true, &mut buf) {
            Some(_) => {
                let s = chars_to_string(&buf);
                string.append(s.as_str());
                true
            },
            None => false,
        }
    }

    /// Returns the Z-string at a particular address in memory, if a valid
    /// one starts there; otherwise [`None`].
    pub fn zstring(&self, addr: ByteAddress) -> (r: Option<String>)
        requires
            self.wf(),
        ensures
            match r {
                Some(s) => spec_zstring(self.mem(), addr.0 as int) matches Some((t, _)) && s@ == t,
                None => spec_zstring(self.mem(), addr.0 as int) is None,
            },
    {
        let mut s = String::new();
        if self.copy_zstring(addr, &mut s) {
            Some(s)
        } else {
            None
        }
    }

    /// Returns the Z-string at a particular address together with the
    /// number of octets it occupies, so a caller can advance a program
    /// counter past it; or [`None`] when no valid Z-string starts there.
    pub fn read_zstring(&self, addr: ByteAddress) -> (r: Option<(String, usize)>)
        requires
            self.wf(),
        ensures
            match r {
                Some((s, n)) => spec_zstring(self.mem(), addr.0 as int) matches Some((t, k))
                    && s@ == t && n == 2 * k && addr.0 + n <= self.mem().len(),
                None => spec_zstring(self.mem(), addr.0 as int) is None,
            },
    {
        let n = self.memory.len();
        let mut buf: Vec<char> = Vec::new();
        match self.decode_zstring_inner(addr.0, true, &mut buf) {
            Some(k) => {
                let s = chars_to_string(&buf);
                proof {
                    assert(buf@ == Seq::<char>::empty() + buf@);
                    assert(Seq::<char>::empty() + buf@ =~= buf@);
                }
                Some((s, 2 * k))
            },
            None => None,
        }
    }
}

/// The number of story words from byte address `a` up to and including
/// the first word carrying the end mark, or [`None`] when the image ends
/// first. This counts structure only; it knows nothing of the decoder.
pub open spec fn zstring_word_count(mem: Seq<u8>, a: int) -> Option<nat>
    decreases mem.len() - a,
{
    if a < 0 || a + 2 > mem.len() {
        None
    } else if word_is_end(word_at(mem, a)) {
        Some(1nat)
    } else {
        match zstring_word_count(mem, a + 2) {
            None => None,
            Some(k) => Some((k + 1) as nat),
        }
    }
}

/// A decoded Z-string consumes words up to its terminator and no further:
/// the count the decoder yields is the structural word count, so decoding
/// from byte address `a` consumes exactly two octets per word up to the
/// first end-marked word, and the next Z-string starts right after.
pub proof fn lemma_zstring_word_count(mem: Seq<u8>, a: int)
    requires
        spec_zstring(mem, a) is Some,
    ensures
        spec_zstring(mem, a) matches Some((t, k)) && zstring_word_count(mem, a) == Some(k),
{
    lemma_words_count(mem, a, AlphabetMode::Lowercase, ZStringState::Unset, true);
}

/// The word-count half of the decoder's invariant, by induction over the
/// story words.
proof fn lemma_words_count(mem: Seq<u8>, a: int, mode: AlphabetMode, st: ZStringState, allow: bool)
    requires
        decode_words(mem, a, mode, st, allow) is Some,
    ensures
        decode_words(mem, a, mode, st, allow) matches Some((t, k)) && zstring_word_count(mem, a)
            == Some(k),
    decreases allow_measure(allow), mem.len() - a + 2, 0int,
{
    let w = word_at(mem, a);
    lemma_chars_count(mem, a, zchars_of_word(w), word_is_end(w), mode, st, allow);
}

/// Stepping through a word's pending characters does not consume words;
/// only crossing to the next word does.
proof fn lemma_chars_count(
    mem: Seq<u8>,
    a: int,
    pending: Seq<u8>,
    last: bool,
    mode: AlphabetMode,
    st: ZStringState,
    allow: bool,
)
    requires
        decode_chars(mem, a, pending, last, mode, st, allow) is Some,
    ensures
        decode_chars(mem, a, pending, last, mode, st, allow) matches Some((t, k)) && (if last {
            k == 0
        } else {
            zstring_word_count(mem, a + 2) == Some(k)
        }),
    decreases allow_measure(allow), mem.len() - a + 1, pending.len(),
{
    if pending.len() == 0 {
        if !last {
            lemma_words_count(mem, a + 2, mode, st, allow);
        }
    } else {
        match zchar_step(mem, pending[0], mode, st, allow) {
            None => (),
            Some((m2, s2, txt)) => {
                lemma_chars_count(mem, a, pending.drop_first(), last, m2, s2, allow);
            },
        }
    }
}

} // verus!
