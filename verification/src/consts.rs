//! Byte and bit offsets of the header fields, as published in the story file
//! format. The first 64 octets of every story are this fixed field table.

use vstd::prelude::*;

verus! {

/// Byte offset of the version octet.
pub const STORY_VERSION: usize = 0x0;
/// Byte offset of the high-memory base word.
pub const HIGH_MEMORY_LOCATION: usize = 0x4;
/// Byte offset of the initial program counter word (main routine in V6).
pub const INITIAL_PC_LOCATION: usize = 0x6;
/// Byte offset of the dictionary location word.
pub const DICTIONARY_LOCATION: usize = 0x8;
/// Byte offset of the object table location word.
pub const OBJECT_TABLE_LOCATION: usize = 0xA;
/// Byte offset of the global variables table word.
pub const GLOBAL_VARIABLE_TABLE_LOCATION: usize = 0xC;
/// Byte offset of the static memory base word.
pub const STATIC_MEMORY_LOCATION: usize = 0xE;
/// Byte offset of the abbreviations table location word.
pub const ABBREVIATIONS_LOCATION: usize = 0x18;
/// Byte offset of the file length word (scaled by version).
pub const FILE_LENGTH: usize = 0x1A;
/// Byte offset of the stored checksum word.
pub const FILE_CHECKSUM: usize = 0x1C;
/// Byte offset of the routines offset word (V6/V7, in 8-octet units).
pub const ROUTINES_OFFSET: usize = 0x28;
/// Byte offset of the static-strings offset word (V6/V7, in 8-octet units).
pub const STATIC_STRINGS_OFFSET: usize = 0x2A;
/// Byte offset of the alphabet table address word (V5 and later).
pub const ALPHABET_TABLE_ADDRESS: usize = 0x34;
/// Byte offset of the header extension table address word.
pub const HEADER_EXTENSION_TABLE_ADDRESS: usize = 0x36;
/// Byte offset, within the header extension table, of the Unicode
/// translation table address word.
pub const HEADER_EXT_UNICODE_TRANSLATION_TABLE_LOCATION: usize = 0x6;

/// Bit address of the status-line kind flag (flags 1, for V1 to V3).
pub const STATUS_LINE_BIT: usize = 0x9;
/// Bit address of the two-disk flag (flags 1, for V1 to V3).
pub const TWO_DISKS_BIT: usize = 0xA;

} // verus!
