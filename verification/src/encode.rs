//! Encoding tokens into Z-characters, and the round trip: decoding what
//! was encoded yields the original text.
//!
//! Dictionary entries hold their words in this encoding, truncated to a
//! fixed width and padded with Z-character 5, which the decoder reads as a
//! dangling one-shot shift and prints nothing for.

use vstd::prelude::*;
use vstd::seq_lib::*;

use crate::text::{
    decode_chars, lemma_chars_cons, printable_step, spec_alphabet_row, zchar_step, Alphabet,
    AlphabetMode, ZStringState,
};
use crate::ZMachine;

verus! {

/// The story's lowercase alphabet row read as characters.
pub open spec fn lower_row_chars(mem: Seq<u8>) -> Seq<char> {
    spec_alphabet_row(mem, AlphabetMode::Lowercase).map_values(|b: u8| b as char)
}

/// Whether `c` can be written as a single Z-character of the story's
/// lowercase alphabet: the space, or a letter of the row.
pub open spec fn encodable_char(mem: Seq<u8>, c: char) -> bool {
    ||| c == ' '
    ||| lower_row_chars(mem).index_of_first(c) is Some
}

/// The Z-character that encodes `c`: 0 for the space, or 6 plus the
/// letter's first position in the lowercase row.
pub open spec fn encode_char(mem: Seq<u8>, c: char) -> u8 {
    if c == ' ' {
        0u8
    } else {
        (6 + lower_row_chars(mem).index_of_first(c)->Some_0) as u8
    }
}

/// The Z-characters that encode a token, one per character.
pub open spec fn spec_encode_zchars(mem: Seq<u8>, text: Seq<char>) -> Seq<u8> {
    Seq::new(text.len(), |i: int| encode_char(mem, text[i]))
}

/// The fixed width of a dictionary token in Z-characters: six through
/// version 3, nine after.
pub open spec fn spec_token_width(mem: Seq<u8>) -> int {
    if crate::meta::version_number(mem) <= 3 {
        6
    } else {
        9
    }
}

/// The part of a token that fits the fixed width.
pub open spec fn spec_token_kept(mem: Seq<u8>, text: Seq<char>) -> Seq<char> {
    if text.len() <= spec_token_width(mem) {
        text
    } else {
        text.take(spec_token_width(mem))
    }
}

/// `n` octets of Z-character 5, the encoder's padding.
pub open spec fn pad5(n: int) -> Seq<u8> {
    Seq::new(n as nat, |i: int| 5u8)
}

/// Padding decodes to nothing: from a clean state (no ten-bit escape or
/// abbreviation pending), any run of Z-character 5 emits no text and ends
/// the string cleanly.
proof fn lemma_pad_decodes(
    mem: Seq<u8>,
    a: int,
    npad: int,
    mode: AlphabetMode,
    st: ZStringState,
    allow: bool,
)
    requires
        0 <= a,
        a + 2 <= mem.len(),
        0 <= npad,
        st matches ZStringState::Unset || st matches ZStringState::ModeShift(_),
    ensures
        decode_chars(mem, a, pad5(npad), true, mode, st, allow) == Some(
            (Seq::<char>::empty(), 0nat),
        ),
    decreases npad,
{
    reveal(printable_step);
    if npad == 0 {
        assert(pad5(0) =~= Seq::<u8>::empty());
    } else {
        let cm = match st {
            ZStringState::ModeShift(m) => m,
            _ => mode,
        };
        let (m2, s2, txt) = printable_step(mem, 5u8, mode, cm);
        assert(zchar_step(mem, 5u8, mode, st, allow) == Some((m2, s2, txt)));
        assert(pad5(npad) =~= seq![5u8] + pad5(npad - 1));
        lemma_chars_cons(mem, a, 5u8, pad5(npad - 1), true, mode, st, allow, m2, s2, txt);
        lemma_pad_decodes(mem, a, npad - 1, m2, s2, allow);
        assert(txt + Seq::<char>::empty() =~= Seq::<char>::empty());
    }
}

/// The round trip: decoding an encoded token (with any amount of
/// padding) yields exactly the original text. This holds of tokens whose
/// characters the lowercase alphabet can carry in one Z-character each;
/// an entry written with redundant shifts decodes to the same text but is
/// not the encoder's output.
pub proof fn lemma_encode_roundtrip(
    mem: Seq<u8>,
    a: int,
    text: Seq<char>,
    npad: int,
    allow: bool,
)
    requires
        0 <= a,
        a + 2 <= mem.len(),
        0 <= npad,
        forall|i: int| 0 <= i < text.len() ==> encodable_char(mem, #[trigger] text[i]),
    ensures
        decode_chars(
            mem,
            a,
            spec_encode_zchars(mem, text) + pad5(npad),
            true,
            AlphabetMode::Lowercase,
            ZStringState::Unset,
            allow,
        ) == Some((text, 0nat)),
    decreases text.len(),
{
    reveal(printable_step);
    let row = spec_alphabet_row(mem, AlphabetMode::Lowercase);
    crate::text::lemma_alphabet_row_len(mem, AlphabetMode::Lowercase);
    if text.len() == 0 {
        assert(spec_encode_zchars(mem, text) + pad5(npad) =~= pad5(npad));
        lemma_pad_decodes(mem, a, npad, AlphabetMode::Lowercase, ZStringState::Unset, allow);
        assert(text =~= Seq::<char>::empty());
    } else {
        let c = text[0];
        let zc = encode_char(mem, c);
        if c != ' ' {
            lower_row_chars(mem).index_of_first_ensures(c);
            let j = lower_row_chars(mem).index_of_first(c)->Some_0;
            assert(lower_row_chars(mem).len() == 26);
            assert(lower_row_chars(mem)[j] == c);
            assert(zc == 6 + j && 6 <= zc < 32);
            assert(row[zc - 6] as char == c);
        }
        let (m2, s2, txt) = printable_step(mem, zc, AlphabetMode::Lowercase,
            AlphabetMode::Lowercase);
        assert(txt =~= seq![c]);
        assert(m2 == AlphabetMode::Lowercase && s2 == ZStringState::Unset);
        assert(zchar_step(mem, zc, AlphabetMode::Lowercase, ZStringState::Unset, allow) == Some(
            (m2, s2, txt),
        ));
        let rest = spec_encode_zchars(mem, text.drop_first()) + pad5(npad);
        assert(spec_encode_zchars(mem, text) + pad5(npad) =~= seq![zc] + rest);
        lemma_chars_cons(
            mem,
            a,
            zc,
            rest,
            true,
            AlphabetMode::Lowercase,
            ZStringState::Unset,
            allow,
            m2,
            s2,
            txt,
        );
        lemma_encode_roundtrip(mem, a, text.drop_first(), npad, allow);
        assert(txt + text.drop_first() =~= text);
    }
}

impl ZMachine {
    /// Encodes an input token into the fixed-width Z-character form a
    /// dictionary entry carries: one Z-character per character, truncated
    /// to six Z-characters (nine from version 4) and padded with
    /// Z-character 5. Yields [`None`] when a character within the width
    /// is not the space and not in the lowercase alphabet.
    #[verifier::rlimit(60)]
    #[verifier::spinoff_prover]
    pub fn encode_token(&self, text: &Vec<char>) -> (r: Option<Vec<u8>>)
        requires
            self.wf(),
        ensures
            match r {
                Some(z) => {
                    &&& forall|i: int|
                        0 <= i < spec_token_kept(self.mem(), text@).len() ==> encodable_char(
                            self.mem(),
                            #[trigger] spec_token_kept(self.mem(), text@)[i],
                        )
                    &&& z@ == spec_encode_zchars(self.mem(), spec_token_kept(self.mem(), text@))
                        + pad5(
                        spec_token_width(self.mem()) - spec_token_kept(self.mem(), text@).len(),
                    )
                },
                None => exists|i: int|
                    0 <= i < spec_token_kept(self.mem(), text@).len() && !encodable_char(
                        self.mem(),
                        #[trigger] spec_token_kept(self.mem(), text@)[i],
                    ),
            },
    {
        let ghost m = self.mem();
        let v = self.version().number();
        let width: usize = if v <= 3 {
            6
        } else {
            9
        };
        let alphabet = self.alphabet();
        let take = if text.len() <= width {
            text.len()
        } else {
            width
        };
        let mut zs: Vec<u8> = Vec::new();
        let mut i: usize = 0;
        while i < take
            invariant
                self.wf(),
                m == self.mem(),
                alphabet.is_for(m),
                i <= take,
                take <= text@.len(),
                ({
                    let w: int = if crate::meta::version_number(m) <= 3 {
                        6
                    } else {
                        9
                    };
                    take == if text@.len() <= w {
                        text@.len() as int
                    } else {
                        w
                    }
                }),
                forall|j: int| 0 <= j < i ==> encodable_char(m, #[trigger] text@[j]),
                zs@ =~= spec_encode_zchars(m, text@.take(i as int)),
            decreases take - i,
        {
            let c = text[i];
            proof {
                crate::text::lemma_alphabet_row_len(m, AlphabetMode::Lowercase);
                assert(alphabet.row(AlphabetMode::Lowercase).map_values(|b: u8| b as char)
                    =~= lower_row_chars(m));
            }
            if c == ' ' {
                zs.push(0);
            } else {
                match Self::letter_index(&alphabet, c) {
                    Some(j) => {
                        proof {
                            lower_row_chars(m).index_of_first_ensures(c);
                        }
                        zs.push(6 + j);
                    },
                    None => {
                        proof {
                            lower_row_chars(m).index_of_first_ensures(c);
                            assert(!encodable_char(m, text@[i as int]));
                            assert(spec_token_kept(self.mem(), text@)[i as int]
                                == text@[i as int]);
                        }
                        return None;
                    },
                }
            }
            proof {
                assert(zs@ =~= spec_encode_zchars(m, text@.take(i + 1)));
            }
            i = i + 1;
        }
        while i < width
            invariant
                self.wf(),
                m == self.mem(),
                take <= i <= width,
                take <= text@.len(),
                width == (if crate::meta::version_number(m) <= 3 {
                    6int
                } else {
                    9
                }),
                ({
                    let w: int = if crate::meta::version_number(m) <= 3 {
                        6
                    } else {
                        9
                    };
                    take == if text@.len() <= w {
                        text@.len() as int
                    } else {
                        w
                    }
                }),
                zs@ =~= spec_encode_zchars(m, text@.take(take as int)) + pad5(i - take),
            decreases width - i,
        {
            zs.push(5);
            proof {
                assert(zs@ =~= spec_encode_zchars(m, text@.take(take as int)) + pad5(
                    i + 1 - take,
                ));
            }
            i = i + 1;
        }
        proof {
            assert(spec_token_kept(m, text@) =~= text@.take(take as int));
        }
        Some(zs)
    }

    /// Finds a character's first position in the lowercase row, the
    /// position [`encode_char`] names.
    fn letter_index(alphabet: &Alphabet, c: char) -> (r: Option<u8>)
        requires
            alphabet.row(AlphabetMode::Lowercase).len() == 26,
        ensures
            ({
                let chars = alphabet.row(AlphabetMode::Lowercase).map_values(|b: u8| b as char);
                match r {
                    Some(j) => j < 26 && chars.index_of_first(c) == Some(j as int),
                    None => chars.index_of_first(c) is None,
                }
            }),
    {
        let ghost chars = alphabet.row(AlphabetMode::Lowercase).map_values(|b: u8| b as char);
        let mut j: usize = 0;
        while j < 26
            invariant
                alphabet.row(AlphabetMode::Lowercase).len() == 26,
                chars == alphabet.row(AlphabetMode::Lowercase).map_values(|b: u8| b as char),
                j <= 26,
                forall|k: int| 0 <= k < j ==> #[trigger] chars[k] != c,
            decreases 26 - j,
        {
            if alphabet.letter_at_index(j as u8, AlphabetMode::Lowercase) == c {
                proof {
                    chars.index_of_first_ensures(c);
                    assert(chars[j as int] == c);
                }
                return Some(j as u8);
            }
            j = j + 1;
        }
        proof {
            chars.index_of_first_ensures(c);
        }
        None
    }
}

} // verus!
