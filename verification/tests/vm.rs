//! Instruction decoding and the zero- and one-operand dispatch on
//! constructed version-3 stories.

use zmachine::bits::ByteAddress;
use zmachine::vm::{call_args_new, Action, ExecuteError, OpcodeForm, Operand, OperandsDesc};
use zmachine::ZMachine;

/// A version-3 story with writable memory up to 0x100 and the globals
/// table at 0x80.
fn story() -> Vec<u8> {
    let mut m = vec![0u8; 0x200];
    m[0] = 3;
    m[0x0E] = 0x01;
    m[0x0F] = 0x00; // static memory base 0x100
    m[0x0D] = 0x80; // globals table at 0x80
    m
}

fn set_word(m: &mut Vec<u8>, at: usize, w: u16) {
    m[at] = (w >> 8) as u8;
    m[at + 1] = (w & 0xFF) as u8;
}

#[test]
fn forms_classify_by_top_bits() {
    let mut m = story();
    m[0x140] = 0xE0; // 111_00000: variable form, var family
    m[0x141] = 0xC1; // 110_00001: variable form, two-operand family
    m[0x142] = 0xB0; // 10_11_0000: short form, zero operands
    m[0x143] = 0x90; // 10_01_0000: short form, one operand
    m[0x144] = 0x41; // 01_000001: long form, two operands
    let z = ZMachine::new(m).unwrap();
    let (f, d, op, next) = z.decode_instruction(ByteAddress(0x140)).unwrap();
    assert!(matches!(f, OpcodeForm::Variable));
    assert!(matches!(d, OperandsDesc::Var));
    assert_eq!((op, next.addr()), (0, 0x141));
    let (f, d, op, _) = z.decode_instruction(ByteAddress(0x141)).unwrap();
    assert!(matches!(f, OpcodeForm::Variable));
    assert!(matches!(d, OperandsDesc::Op2));
    assert_eq!(op, 1);
    let (f, d, _, _) = z.decode_instruction(ByteAddress(0x142)).unwrap();
    assert!(matches!(f, OpcodeForm::Short));
    assert!(matches!(d, OperandsDesc::Op0));
    let (f, d, _, _) = z.decode_instruction(ByteAddress(0x143)).unwrap();
    assert!(matches!(f, OpcodeForm::Short));
    assert!(matches!(d, OperandsDesc::Op1));
    let (f, d, op, _) = z.decode_instruction(ByteAddress(0x144)).unwrap();
    assert!(matches!(f, OpcodeForm::Long));
    assert!(matches!(d, OperandsDesc::Op2));
    assert_eq!(op, 1);
}

#[test]
fn extended_form_needs_version_five() {
    let mut m = story();
    m[0] = 5;
    m[0x140] = 0xBE;
    m[0x141] = 0x02;
    let z = ZMachine::new(m).unwrap();
    let (f, _, op, next) = z.decode_instruction(ByteAddress(0x140)).unwrap();
    assert!(matches!(f, OpcodeForm::Extended));
    assert_eq!((op, next.addr()), (2, 0x142));
    // in version 3 the same octet is short form
    let mut m3 = story();
    m3[0x140] = 0xBE;
    let z3 = ZMachine::new(m3).unwrap();
    let (f, _, _, _) = z3.decode_instruction(ByteAddress(0x140)).unwrap();
    assert!(matches!(f, OpcodeForm::Short));
}

#[test]
fn rtrue_and_rfalse_return() {
    let mut m = story();
    m[0x140] = 0xB0; // short form, op0: rtrue
    m[0x141] = 0xB1; // rfalse
    let mut z = ZMachine::new(m).unwrap();
    let mut pc = ByteAddress(0x140);
    assert!(matches!(z.execute(&mut pc), Ok(Action::Return(1))));
    let mut pc = ByteAddress(0x141);
    assert!(matches!(z.execute(&mut pc), Ok(Action::Return(0))));
}

#[test]
fn print_appends_to_the_transcript() {
    let mut m = story();
    m[0x140] = 0xB2; // print
    // "hi" : zchars 13, 14, pad 5 in one end-marked word
    let w = 0x8000u16 | (13 << 10) | (14 << 5) | 5;
    set_word(&mut m, 0x141, w);
    m[0x143] = 0xBB; // new_line
    let mut z = ZMachine::new(m).unwrap();
    let mut pc = ByteAddress(0x140);
    assert!(matches!(z.execute(&mut pc), Ok(Action::Continue)));
    assert_eq!(pc.addr(), 0x143);
    assert!(matches!(z.execute(&mut pc), Ok(Action::Continue)));
    assert_eq!(z.output_text(), "hi\n");
}

#[test]
fn quit_halts_the_machine() {
    let mut m = story();
    m[0x140] = 0xBA; // quit
    let mut z = ZMachine::new(m).unwrap();
    assert!(!z.halted());
    let mut pc = ByteAddress(0x140);
    assert!(matches!(z.execute(&mut pc), Ok(Action::Continue)));
    assert!(z.halted());
}

#[test]
fn host_actions_are_reported() {
    let mut m = story();
    m[0x140] = 0xB5; // save
    m[0x141] = 0xB6; // restore
    m[0x142] = 0xB7; // restart
    m[0x143] = 0xBC; // show_status
    let mut z = ZMachine::new(m).unwrap();
    let mut pc = ByteAddress(0x140);
    assert!(matches!(z.execute(&mut pc), Ok(Action::Save)));
    let mut pc = ByteAddress(0x141);
    assert!(matches!(z.execute(&mut pc), Ok(Action::Restore)));
    let mut pc = ByteAddress(0x142);
    assert!(matches!(z.execute(&mut pc), Ok(Action::Restart)));
    let mut pc = ByteAddress(0x143);
    assert!(matches!(z.execute(&mut pc), Ok(Action::ShowStatus)));
}

#[test]
fn save_is_invalid_from_version_five() {
    let mut m = story();
    m[0] = 5;
    m[0x140] = 0xB5;
    let mut z = ZMachine::new(m).unwrap();
    let mut pc = ByteAddress(0x140);
    assert!(matches!(z.execute(&mut pc), Err(ExecuteError::InvalidOpcode(5))));
}

#[test]
fn verify_checksums_and_branches() {
    let mut m = story();
    set_word(&mut m, 0x1A, 0x48); // file length 0x90
    for i in 64..0x90 {
        m[i] = 1;
    }
    // that sums to 0x50 = 80 over image[64..0x90], minus the opcode
    // octets placed below; compute the stored checksum afterwards
    m[0x70] = 0xBD; // verify, placed in the summed region
    m[0x71] = 0xC3; // branch on true, short offset 3
    let mut sum: u16 = 0;
    for i in 64..0x90 {
        sum = sum.wrapping_add(m[i] as u16);
    }
    set_word(&mut m, 0x1C, sum);
    let mut z = ZMachine::new(m).unwrap();
    let mut pc = ByteAddress(0x70);
    assert!(matches!(z.execute(&mut pc), Ok(Action::Continue)));
    assert_eq!(pc.addr(), 0x72 + 3 - 2); // branch taken to offset 3
}

#[test]
fn piracy_always_branches() {
    let mut m = story();
    m[0x140] = 0xBF; // piracy
    m[0x141] = 0xC4; // branch on true, short offset 4
    let mut z = ZMachine::new(m).unwrap();
    let mut pc = ByteAddress(0x140);
    assert!(matches!(z.execute(&mut pc), Ok(Action::Continue)));
    assert_eq!(pc.addr(), 0x142 + 4 - 2);
}

#[test]
fn branch_offsets_zero_and_one_return() {
    let mut m = story();
    m[0x140] = 0xBF; // piracy
    m[0x141] = 0xC0; // branch on true, offset 0: return false
    m[0x142] = 0xBF;
    m[0x143] = 0xC1; // offset 1: return true
    let mut z = ZMachine::new(m).unwrap();
    let mut pc = ByteAddress(0x140);
    assert!(matches!(z.execute(&mut pc), Ok(Action::Return(0))));
    let mut pc = ByteAddress(0x142);
    assert!(matches!(z.execute(&mut pc), Ok(Action::Return(1))));
}

#[test]
fn jz_branches_on_zero() {
    let mut m = story();
    m[0x140] = 0x90; // short form, one operand (small constant): jz
    m[0x141] = 0x00; // operand 0
    m[0x142] = 0xC5; // branch on true, offset 5
    let mut z = ZMachine::new(m).unwrap();
    let mut pc = ByteAddress(0x140);
    assert!(matches!(z.execute(&mut pc), Ok(Action::Continue)));
    assert_eq!(pc.addr(), 0x143 + 5 - 2);
    // a non-zero operand falls through
    let mut m2 = story();
    m2[0x140] = 0x90;
    m2[0x141] = 0x07;
    m2[0x142] = 0xC5;
    let mut z2 = ZMachine::new(m2).unwrap();
    let mut pc = ByteAddress(0x140);
    assert!(matches!(z2.execute(&mut pc), Ok(Action::Continue)));
    assert_eq!(pc.addr(), 0x143);
}

#[test]
fn long_branches_reach_backwards() {
    let mut m = story();
    m[0x140] = 0xBF; // piracy
    // branch on true, long form, offset -10 (14-bit two's complement)
    let off: u16 = (0x4000u16 - 10) & 0x3FFF;
    m[0x141] = 0x80 | (off >> 8) as u8;
    m[0x142] = (off & 0xFF) as u8;
    let mut z = ZMachine::new(m).unwrap();
    let mut pc = ByteAddress(0x140);
    assert!(matches!(z.execute(&mut pc), Ok(Action::Continue)));
    assert_eq!(pc.addr(), 0x143 - 10 - 2);
}

#[test]
fn globals_load_and_store() {
    let mut m = story();
    set_word(&mut m, 0x80 + 2 * 4, 0x1234); // global 20 lives at 0x88
    let mut z = ZMachine::new(m).unwrap();
    assert_eq!(z.variable(20), Ok(0x1234));
    assert_eq!(z.set_variable(20, 0x4321), Ok(()));
    assert_eq!(z.variable(20), Ok(0x4321));
}

#[test]
fn stack_pushes_and_pops() {
    let m = story();
    let mut z = ZMachine::new(m).unwrap();
    assert_eq!(z.set_variable(0, 7), Ok(()));
    assert_eq!(z.set_variable(0, 9), Ok(()));
    assert_eq!(z.variable(0), Ok(9));
    assert_eq!(z.pop_stack(), Ok(7));
    assert!(matches!(z.pop_stack(), Err(ExecuteError::InvalidInstructionFormat(_))));
    assert_eq!(z.stack_frame(), 0);
}

#[test]
fn global_writes_outside_dynamic_memory_fail() {
    let mut m = story();
    set_word(&mut m, 0x0C, 0x180); // globals table in static memory
    let mut z = ZMachine::new(m).unwrap();
    assert!(matches!(z.set_variable(20, 1), Err(ExecuteError::ReadOnlyMemory(_))));
}

#[test]
fn inc_and_dec_wrap_around() {
    let mut m = story();
    set_word(&mut m, 0x80, 0xFFFF); // global 16 at the table base
    m[0x140] = 0xA5; // short form, variable operand: inc
    m[0x141] = 16; // the variable to increment
    m[0x142] = 0xA6; // dec
    m[0x143] = 16;
    let mut z = ZMachine::new(m).unwrap();
    let mut pc = ByteAddress(0x140);
    assert!(matches!(z.execute(&mut pc), Ok(Action::Continue)));
    assert_eq!(z.variable(16), Ok(0));
    let mut pc = ByteAddress(0x142);
    assert!(matches!(z.execute(&mut pc), Ok(Action::Continue)));
    assert_eq!(z.variable(16), Ok(0xFFFF));
}

#[test]
fn inc_requires_a_variable_operand() {
    // "inc" with a small-constant operand names no variable
    let mut m = story();
    m[0x140] = 0x95; // short form, small constant: inc
    m[0x141] = 16;
    let mut z = ZMachine::new(m).unwrap();
    let mut pc = ByteAddress(0x140);
    assert!(matches!(z.execute(&mut pc), Err(ExecuteError::InvalidInstructionFormat(_))));
}

#[test]
fn ret_returns_the_operand() {
    let mut m = story();
    m[0x140] = 0x9B; // short form, small constant: ret
    m[0x141] = 42;
    let mut z = ZMachine::new(m).unwrap();
    let mut pc = ByteAddress(0x140);
    assert!(matches!(z.execute(&mut pc), Ok(Action::Return(42))));
}

#[test]
fn jump_moves_the_cursor() {
    let mut m = story();
    m[0x140] = 0x8C; // short form, large constant: jump
    set_word(&mut m, 0x141, 0xFFF6); // -10
    let mut z = ZMachine::new(m).unwrap();
    let mut pc = ByteAddress(0x140);
    assert!(matches!(z.execute(&mut pc), Ok(Action::Continue)));
    assert_eq!(pc.addr(), 0x143 - 10 - 2);
}

#[test]
fn get_parent_stores_the_link() {
    let mut m = story();
    // object table at 0x40, as in a minimal three-object story
    m[0x0B] = 0x40;
    let objects = 0x40 + 62;
    let props1 = objects + 2 * 9;
    m[objects + 4] = 0; // object 1: no parent
    m[objects + 7] = (props1 >> 8) as u8;
    m[objects + 8] = props1 as u8;
    m[objects + 9 + 4] = 1; // object 2's parent is 1
    m[0x140] = 0x93; // short form, small constant: get_parent
    m[0x141] = 2; // object 2
    m[0x142] = 16; // store into global 16
    let mut z = ZMachine::new(m).unwrap();
    let mut pc = ByteAddress(0x140);
    assert!(matches!(z.execute(&mut pc), Ok(Action::Continue)));
    assert_eq!(z.variable(16), Ok(1));
}

#[test]
fn call_actions_carry_the_packed_target() {
    let mut m = story();
    m[0] = 4;
    m[0x140] = 0x98; // short form, small constant: call_1s
    m[0x141] = 0x21; // packed routine address
    m[0x142] = 16; // store variable
    let mut z = ZMachine::new(m).unwrap();
    let mut pc = ByteAddress(0x140);
    match z.execute(&mut pc) {
        Ok(Action::Call { addr, retvar, .. }) => {
            assert_eq!(addr.addr(), 0x21 * 4); // version 4 scales by 4
            assert_eq!(retvar, Some(16));
        },
        other => panic!("expected a call action, got {:?}", other.is_ok()),
    }
}

#[test]
fn invoke_routine_seeds_locals() {
    let mut m = story();
    m[0x150] = 2; // two locals
    set_word(&mut m, 0x151, 0xAAAA); // initial value of local 1
    set_word(&mut m, 0x153, 0xBBBB); // initial value of local 2
    let mut z = ZMachine::new(m).unwrap();
    let mut args = call_args_new();
    zmachine::vm::call_args_push(&mut args, 7);
    let entry = z
        .invoke_routine(ByteAddress(0x150), ByteAddress(0x200), Some(3), &args)
        .unwrap();
    assert_eq!(entry.addr(), 0x155);
    assert_eq!(z.variable(1), Ok(7)); // the argument overrides
    assert_eq!(z.variable(2), Ok(0xBBBB));
    assert_eq!(z.stack_frame(), 1);
    assert!(matches!(z.variable(3), Err(ExecuteError::InvalidInstructionFormat(_))));
}

#[test]
fn unhandled_families_are_reported() {
    let mut m = story();
    m[0x140] = 0x41; // long form: a two-operand instruction
    let mut z = ZMachine::new(m).unwrap();
    let mut pc = ByteAddress(0x140);
    assert!(matches!(z.execute(&mut pc), Err(ExecuteError::Unsupported(1))));
    let mut m2 = story();
    m2[0x140] = 0x99; // short form, small constant: remove_obj
    m2[0x141] = 1;
    let mut z2 = ZMachine::new(m2).unwrap();
    let mut pc = ByteAddress(0x140);
    assert!(matches!(z2.execute(&mut pc), Err(ExecuteError::Unsupported(9))));
}

#[test]
fn invalid_one_operand_opcodes_are_refused() {
    let mut m = story();
    m[0x140] = 0x98; // call_1s in version 3, where it does not exist
    m[0x141] = 0x21;
    let mut z = ZMachine::new(m).unwrap();
    let mut pc = ByteAddress(0x140);
    assert!(matches!(z.execute(&mut pc), Err(ExecuteError::InvalidOpcode(8))));
}

#[test]
fn execute_past_the_image_faults() {
    let m = story();
    let mut z = ZMachine::new(m).unwrap();
    let mut pc = ByteAddress(0x200);
    assert!(matches!(z.execute(&mut pc), Err(ExecuteError::BadAddress(0x200))));
}

#[test]
fn finish_save_branches_or_stores_by_version() {
    let mut m = story();
    m[0x140] = 0xC3; // branch on true, short offset 3
    let mut z = ZMachine::new(m).unwrap();
    let mut pc = ByteAddress(0x140);
    assert!(matches!(z.finish_save(true, &mut pc), Ok(None)));
    assert_eq!(pc.addr(), 0x141 + 3 - 2);
    let mut m4 = story();
    m4[0] = 4;
    m4[0x140] = 16; // store variable: global 16
    let mut z4 = ZMachine::new(m4).unwrap();
    let mut pc = ByteAddress(0x140);
    assert!(matches!(z4.finish_restore(true, &mut pc), Ok(None)));
    assert_eq!(pc.addr(), 0x141);
    assert_eq!(z4.variable(16), Ok(1));
}

#[test]
fn restart_clears_the_execution_state() {
    let mut m = story();
    set_word(&mut m, 0x06, 0x150); // initial program counter
    let mut z = ZMachine::new(m).unwrap();
    z.set_variable(0, 5).unwrap();
    let pc = z.restart();
    assert_eq!(pc.addr(), 0x150);
    assert!(matches!(z.pop_stack(), Err(ExecuteError::InvalidInstructionFormat(_))));
}

#[test]
fn print_paddr_resolves_packed_strings() {
    let mut m = story();
    m[0x140] = 0x8D; // short form, large constant: print_paddr
    set_word(&mut m, 0x141, 0xB0); // packed: byte address 0x160
    let w = 0x8000u16 | (6 << 10) | (7 << 5) | 8; // "abc"
    set_word(&mut m, 0x160, w);
    let mut z = ZMachine::new(m).unwrap();
    let mut pc = ByteAddress(0x140);
    assert!(matches!(z.execute(&mut pc), Ok(Action::Continue)));
    assert_eq!(z.output_text(), "abc");
    // an invalid target is reported with its resolved address
    let mut m2 = story();
    m2[0x140] = 0x8D;
    set_word(&mut m2, 0x141, 0x100); // resolves to 0x200: out of range
    let mut z2 = ZMachine::new(m2).unwrap();
    let mut pc = ByteAddress(0x140);
    assert!(matches!(z2.execute(&mut pc), Err(ExecuteError::InvalidZString(0x200))));
}

#[test]
fn returning_pops_the_frame() {
    let mut m = story();
    m[0x150] = 1; // one local
    set_word(&mut m, 0x151, 0);
    let mut z = ZMachine::new(m).unwrap();
    let args = call_args_new();
    z.set_variable(0, 0xDEAD).unwrap(); // a value below the watermark
    let entry = z
        .invoke_routine(ByteAddress(0x150), ByteAddress(0x1A0), Some(16), &args)
        .unwrap();
    assert_eq!(entry.addr(), 0x153);
    z.set_variable(0, 0x5555).unwrap(); // junk the routine leaves behind
    let pc = z.return_from_routine(99).unwrap();
    assert_eq!(pc.addr(), 0x1A0);
    assert_eq!(z.variable(16), Ok(99)); // the return variable got the value
    assert_eq!(z.pop_stack(), Ok(0xDEAD)); // the stack fell back
    assert!(z.return_from_routine(0).is_err()); // no frame to pop
}

#[test]
fn variable_operand_lists_stop_at_omitted() {
    let mut m = story();
    // types: large, small, variable, omitted
    m[0x140] = 0b00_01_10_11;
    set_word(&mut m, 0x141, 0x1234);
    m[0x143] = 0x56;
    m[0x144] = 0; // variable 0: the stack top
    let mut z = ZMachine::new(m).unwrap();
    z.set_variable(0, 0x789A).unwrap();
    let mut pc = ByteAddress(0x140);
    let args = z.decode_var_operands(&mut pc).unwrap();
    assert_eq!(pc.addr(), 0x145);
    assert_eq!(zmachine::vm::call_args_len(&args), 3);
    assert_eq!(zmachine::vm::call_args_get(&args, 0), 0x1234);
    assert_eq!(zmachine::vm::call_args_get(&args, 1), 0x56);
    assert_eq!(zmachine::vm::call_args_get(&args, 2), 0x789A);
}

#[test]
fn operands_resolve_to_values() {
    let m = story();
    let mut z = ZMachine::new(m).unwrap();
    z.set_variable(0, 7).unwrap();
    assert_eq!(Operand::LargeConstant(0x1234).resolve(&mut z), Ok(Some(0x1234)));
    assert_eq!(Operand::SmallConstant(9).resolve(&mut z), Ok(Some(9)));
    assert_eq!(Operand::Variable(0).resolve(&mut z), Ok(Some(7)));
    assert_eq!(Operand::Omitted.resolve(&mut z), Ok(None));
}
