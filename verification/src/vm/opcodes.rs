//! Opcode numbers by operand family.

use vstd::prelude::*;

verus! {

/// Zero-operand: return true.
pub const OP0_RTRUE: u8 = 0x0;
/// Zero-operand: return false.
pub const OP0_RFALSE: u8 = 0x1;
/// Zero-operand: print the literal Z-string that follows.
pub const OP0_PRINT: u8 = 0x2;
/// Zero-operand: print the literal Z-string, a newline, and return true.
pub const OP0_PRINT_RET: u8 = 0x3;
/// Zero-operand: no operation.
pub const OP0_NOP: u8 = 0x4;
/// Zero-operand: save the game (before version 5).
pub const OP0_SAVE: u8 = 0x5;
/// Zero-operand: restore the game (before version 5).
pub const OP0_RESTORE: u8 = 0x6;
/// Zero-operand: restart the game.
pub const OP0_RESTART: u8 = 0x7;
/// Zero-operand: return the popped stack top.
pub const OP0_RET_POPPED: u8 = 0x8;
/// Zero-operand: pop and discard (before version 5); catch after.
pub const OP0_POP: u8 = 0x9;
/// Zero-operand: quit.
pub const OP0_QUIT: u8 = 0xA;
/// Zero-operand: print a newline.
pub const OP0_NEW_LINE: u8 = 0xB;
/// Zero-operand: redraw the status line.
pub const OP0_SHOW_STATUS: u8 = 0xC;
/// Zero-operand: verify the story checksum and branch.
pub const OP0_VERIFY: u8 = 0xD;
/// Zero-operand slot taken by the extended-form marker.
pub const OP0_EXTENDED: u8 = 0xE;
/// Zero-operand: the anti-piracy branch, always taken.
pub const OP0_PIRACY: u8 = 0xF;

/// One-operand: branch if the operand is zero.
pub const OP1_JZ: u8 = 0x0;
/// One-operand: store the object's sibling and branch if it has one.
pub const OP1_GET_SIBLING: u8 = 0x1;
/// One-operand: store the object's child and branch if it has one.
pub const OP1_GET_CHILD: u8 = 0x2;
/// One-operand: store the object's parent.
pub const OP1_GET_PARENT: u8 = 0x3;
/// One-operand: store the length of the property at an address.
pub const OP1_GET_PROP_LEN: u8 = 0x4;
/// One-operand: increment a variable.
pub const OP1_INC: u8 = 0x5;
/// One-operand: decrement a variable.
pub const OP1_DEC: u8 = 0x6;
/// One-operand: print the Z-string at a byte address.
pub const OP1_PRINT_ADDR: u8 = 0x7;
/// One-operand: call a routine and store its result (version 4 and
/// later).
pub const OP1_CALL_1S: u8 = 0x8;
/// One-operand: detach an object from its parent.
pub const OP1_REMOVE_OBJ: u8 = 0x9;
/// One-operand: print an object's short name.
pub const OP1_PRINT_OBJ: u8 = 0xA;
/// One-operand: return the operand.
pub const OP1_RET: u8 = 0xB;
/// One-operand: unconditional jump.
pub const OP1_JUMP: u8 = 0xC;
/// One-operand: print the Z-string at a packed address.
pub const OP1_PRINT_PADDR: u8 = 0xD;
/// One-operand: store the value of a variable.
pub const OP1_LOAD: u8 = 0xE;
/// One-operand: bitwise not (through version 4); call_1n after.
pub const OP1_NOT: u8 = 0xF;

} // verus!
