//! Z-string decoding on constructed version-3 stories: a long literal
//! text, abbreviation expansion, and dictionary entries.

use zmachine::bits::ByteAddress;
use zmachine::text::{AlphabetMode, ZStringAbbrv};
use zmachine::ZMachine;

/// A story image of the given length with a version-3 header: static
/// memory right after the header so everything else is read-only.
fn story_v3(len: usize) -> Vec<u8> {
    let mut m = vec![0u8; len];
    m[0] = 3;
    m[0x0E] = 0x00;
    m[0x0F] = 0x40; // static memory base 0x40
    m
}

fn set_word(m: &mut Vec<u8>, at: usize, w: u16) {
    m[at] = (w >> 8) as u8;
    m[at + 1] = (w & 0xFF) as u8;
}

const SYMBOL_ROW: &str = " \n0123456789.,!?_#'\"/\\-:()";

/// Encodes one character into version-3 Z-characters, with one-shot
/// shifts for the upper and symbol alphabets.
fn enc_char(c: char, out: &mut Vec<u8>) {
    if c == ' ' {
        out.push(0);
    } else if c.is_ascii_lowercase() {
        out.push(c as u8 - b'a' + 6);
    } else if c.is_ascii_uppercase() {
        out.push(4);
        out.push(c as u8 - b'A' + 6);
    } else if let Some(i) = SYMBOL_ROW.find(c) {
        out.push(5);
        out.push(i as u8 + 6);
    } else {
        let z = c as u16;
        out.push(5);
        out.push(6);
        out.push((z >> 5) as u8 & 0x1F);
        out.push(z as u8 & 0x1F);
    }
}

/// Encodes a text into Z-string bytes: Z-characters padded with 5 to a
/// multiple of three, packed three to a word, the last word end-marked.
fn encode_zstring(text: &str) -> Vec<u8> {
    let mut zs: Vec<u8> = Vec::new();
    for c in text.chars() {
        enc_char(c, &mut zs);
    }
    while zs.len() % 3 != 0 {
        zs.push(5);
    }
    if zs.is_empty() {
        zs.extend_from_slice(&[5, 5, 5]);
    }
    let mut bytes: Vec<u8> = Vec::new();
    let words = zs.len() / 3;
    for i in 0..words {
        let mut w: u16 =
            ((zs[3 * i] as u16) << 10) | ((zs[3 * i + 1] as u16) << 5) | zs[3 * i + 2] as u16;
        if i == words - 1 {
            w |= 0x8000;
        }
        bytes.push((w >> 8) as u8);
        bytes.push((w & 0xFF) as u8);
    }
    bytes
}

fn place(m: &mut Vec<u8>, at: usize, bytes: &[u8]) {
    m[at..at + bytes.len()].copy_from_slice(bytes);
}

const DAM_PLAQUE: &str = "\"Flood Control Dam #3 was constructed in 783 GUE with a grant of 37 million zorkmids from Lord Dimwit Flathead the Excessive. This impressive structure is composed of 370,000 cubic feet of concrete, is 256 feet tall and 193 feet wide.\n\nThe construction of FCD#3 took 112 days from ground breaking to dedication. It required a work force of 384 slaves, 34 slave drivers, and 12 engineers, 2345 bureaucrats, and nearly one million dead trees.\n\nAs you start your tour, notice the more interesting features of FCD#3. On your right...";

#[test]
fn read_zstring() {
    let mut m = story_v3(0xC000);
    let enc = encode_zstring(DAM_PLAQUE);
    place(&mut m, 0xb106, &enc);
    let dam_plaque = ZMachine::new(m).unwrap().zstring(ByteAddress(0xb106)).unwrap();
    assert_eq!(dam_plaque, DAM_PLAQUE);
}

#[test]
fn read_abbrv() {
    let mut m = story_v3(0x400);
    set_word(&mut m, 0x18, 0x40); // abbreviations table at 0x40
    set_word(&mut m, 0x40 + 2 * 20, 0x100 / 2); // entry 20, a word address
    let enc = encode_zstring("through ");
    place(&mut m, 0x100, &enc);
    let z = ZMachine::new(m).unwrap();
    let abbrv = z.abbrvd_zstring(ZStringAbbrv::new(20).unwrap()).unwrap();
    assert_eq!(abbrv, "through ");
}

#[test]
fn read_dictionary_word() {
    let mut m = story_v3(0x800);
    let base = 0x100;
    set_word(&mut m, 0x08, base as u16);
    m[base] = 2; // two word separators
    m[base + 1] = b'.';
    m[base + 2] = b',';
    m[base + 3] = 7; // entry size
    set_word(&mut m, base + 4, 28); // entry count
    let entries = base + 6;
    for i in 0..28 {
        let enc = encode_zstring("zzzzzz");
        place(&mut m, entries + 7 * i, &enc);
    }
    let enc = encode_zstring("attach");
    place(&mut m, entries + 7 * 27, &enc);
    let z = ZMachine::new(m).unwrap();
    let word_27 = z.dictionary_word(27).unwrap();
    assert_eq!(word_27, "attach");
    assert_eq!(z.dictionary_len(), Some(28));
    assert_eq!(z.dictionary_entry_size(), Some(7));
    assert_eq!(z.word_separators_len(), Some(2));
    assert_eq!(z.word_separators().unwrap(), vec!['.', ',']);
    let words = z.dictionary_words().unwrap();
    assert_eq!(words.len(), 28);
    assert_eq!(words[0], "zzzzzz");
    assert_eq!(words[27], "attach");
}

#[test]
fn ten_bit_escape_decodes_zscii() {
    let mut m = story_v3(0x200);
    // shift to symbol (5), ten-bit begin (6), then 'A' = 65 = 0b00010_00001
    let zs = [5u8, 6, 2, 1, 5, 5];
    let w1 = ((zs[0] as u16) << 10) | ((zs[1] as u16) << 5) | zs[2] as u16;
    let w2 = 0x8000 | ((zs[3] as u16) << 10) | ((zs[4] as u16) << 5) | zs[5] as u16;
    set_word(&mut m, 0x100, w1);
    set_word(&mut m, 0x102, w2);
    let z = ZMachine::new(m).unwrap();
    assert_eq!(z.zstring(ByteAddress(0x100)).unwrap(), "A");
}

#[test]
fn truncated_ten_bit_escape_is_invalid() {
    let mut m = story_v3(0x200);
    // shift to symbol, ten-bit begin, then the string ends mid-escape
    let w1 = 0x8000 | (5u16 << 10) | (6u16 << 5) | 2u16;
    set_word(&mut m, 0x100, w1);
    let z = ZMachine::new(m).unwrap();
    assert!(z.zstring(ByteAddress(0x100)).is_none());
    let mut s = String::from("kept");
    assert!(!z.copy_zstring(ByteAddress(0x100), &mut s));
    assert_eq!(s, "kept");
}

#[test]
fn unterminated_zstring_is_invalid() {
    let mut m = story_v3(0x100);
    // no word from 0xF0 on carries the end mark, so decoding runs off
    let z = ZMachine::new(m).unwrap();
    assert!(z.zstring(ByteAddress(0xF0)).is_none());
}

#[test]
fn abbreviation_valid_by_version() {
    let mut m1 = story_v3(0x100);
    m1[0] = 1;
    let z1 = ZMachine::new(m1).unwrap();
    assert!(z1.is_abbrv_valid(ZStringAbbrv::new(31).unwrap()));
    assert!(!z1.is_abbrv_valid(ZStringAbbrv::new(32).unwrap()));
    let m3 = story_v3(0x100);
    let z3 = ZMachine::new(m3).unwrap();
    assert!(z3.is_abbrv_valid(ZStringAbbrv::new(95).unwrap()));
    assert!(ZStringAbbrv::new(96).is_none());
    assert_eq!(ZStringAbbrv::new(20).unwrap().idx(), 20);
}

#[test]
fn zscii_characters_by_version() {
    let m3 = story_v3(0x100);
    let z3 = ZMachine::new(m3).unwrap();
    assert_eq!(z3.zscii_char(13), Some('\n'));
    assert_eq!(z3.zscii_char(65), Some('A'));
    assert_eq!(z3.zscii_char(9), None);
    assert_eq!(z3.zscii_char(11), None);
    assert_eq!(z3.zscii_char(0), None);
    assert_eq!(z3.zscii_char(155), Some('\u{e4}'));
    assert_eq!(z3.zscii_char(156), Some('\u{f6}'));
    assert_eq!(z3.zscii_char(252), None);
    let mut m6 = story_v3(0x100);
    m6[0] = 6;
    let z6 = ZMachine::new(m6).unwrap();
    assert_eq!(z6.zscii_char(9), Some('\t'));
    assert_eq!(z6.zscii_char(11), Some(' '));
}

#[test]
fn default_alphabet_rows() {
    let m = story_v3(0x100);
    let z = ZMachine::new(m).unwrap();
    let a = z.alphabet();
    assert_eq!(a.letter_for_zchar(6, AlphabetMode::Lowercase), 'a');
    assert_eq!(a.letter_for_zchar(31, AlphabetMode::Lowercase), 'z');
    assert_eq!(a.letter_for_zchar(6, AlphabetMode::Uppercase), 'A');
    assert_eq!(a.letter_for_zchar(7, AlphabetMode::Symbol), '\n');
    assert_eq!(a.letter_at_index(17, AlphabetMode::Symbol), '#');
}

#[test]
fn version_one_symbol_row() {
    let mut m = story_v3(0x100);
    m[0] = 1;
    let z = ZMachine::new(m).unwrap();
    let a = z.alphabet();
    // version 1's symbol row has no newline; index 1 is '0'
    assert_eq!(a.letter_at_index(1, AlphabetMode::Symbol), '0');
    assert_eq!(a.letter_at_index(21, AlphabetMode::Symbol), '<');
}

#[test]
fn default_unicode_table() {
    let m = story_v3(0x100);
    let z = ZMachine::new(m).unwrap();
    let t = z.unicode_table();
    assert_eq!(t.char_at_index(0), Some('\u{e4}'));
    assert_eq!(t.zscii_to_char(155), Some('\u{e4}'));
    assert_eq!(t.zscii_to_char(223), Some('\u{bf}'));
    assert_eq!(t.zscii_to_char(224), None);
    assert_eq!(t.zscii_to_char(100), None);
}

#[test]
fn persistent_shift_before_version_three() {
    // In version 1, Z-character 2 shifts the running alphabet up, so
    // letters after it stay uppercase until shifted again.
    let mut m = story_v3(0x200);
    m[0] = 1;
    let zs = [2u8, 6, 7, 5, 5, 5];
    let w1 = ((zs[0] as u16) << 10) | ((zs[1] as u16) << 5) | zs[2] as u16;
    let w2 = 0x8000 | ((zs[3] as u16) << 10) | ((zs[4] as u16) << 5) | zs[5] as u16;
    set_word(&mut m, 0x100, w1);
    set_word(&mut m, 0x102, w2);
    let z = ZMachine::new(m).unwrap();
    assert_eq!(z.zstring(ByteAddress(0x100)).unwrap(), "AB");
}

#[test]
fn decoding_consumes_to_the_terminator() {
    let mut m = story_v3(0x200);
    let enc = encode_zstring("hello world");
    place(&mut m, 0x100, &enc);
    let next = encode_zstring("next");
    place(&mut m, 0x100 + enc.len(), &next);
    let z = ZMachine::new(m).unwrap();
    let (s, consumed) = z.read_zstring(ByteAddress(0x100)).unwrap();
    assert_eq!(s, "hello world");
    assert_eq!(consumed, enc.len());
    let (s2, _) = z.read_zstring(ByteAddress(0x100 + consumed)).unwrap();
    assert_eq!(s2, "next");
}

#[test]
fn tokens_encode_and_decode_back() {
    let m = story_v3(0x200);
    let z = ZMachine::new(m).unwrap();
    let token: Vec<char> = "attach".chars().collect();
    let zs = z.encode_token(&token).unwrap();
    assert_eq!(zs, vec![6 + 0, 6 + 19, 6 + 19, 6 + 0, 6 + 2, 6 + 7]);
    // a long token is truncated to the version-3 width of six
    let long: Vec<char> = "abcdefgh".chars().collect();
    assert_eq!(z.encode_token(&long).unwrap().len(), 6);
    // a short one is padded with Z-character 5
    let short: Vec<char> = "ab".chars().collect();
    assert_eq!(z.encode_token(&short).unwrap(), vec![6, 7, 5, 5, 5, 5]);
    // a character outside the lowercase alphabet is refused
    let bad: Vec<char> = "a%".chars().collect();
    assert!(z.encode_token(&bad).is_none());
}
