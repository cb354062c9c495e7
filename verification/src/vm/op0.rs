//! The zero-operand opcode family.

use vstd::prelude::*;

use crate::bits::ByteAddress;
use crate::consts;
use crate::memory::word_at;
use crate::meta::{spec_checksum, spec_file_length, version_number};
use crate::text::spec_zstring;
use crate::vm::opcodes;
use crate::vm::{
    branch_step, result_view, store_step, var_read_step, Action, ActionView, ExecuteError,
};
use crate::{MachineView, ZMachine};

verus! {

/// The action a finished branch yields: the special "return false/true"
/// form where the branch named one, going on otherwise.
pub open spec fn after_branch(o: Option<ActionView>) -> ActionView {
    match o {
        None => ActionView::Continue,
        Some(av) => av,
    }
}

/// What one zero-operand opcode does: relates the machine and address
/// before (`pre`, `a0`) and after (`post`, `a1`) and the instruction's
/// result. `a0` is the address just past the opcode octet.
pub open spec fn op0_post(
    pre: MachineView,
    a0: int,
    opcode: u8,
    post: MachineView,
    a1: int,
    r: Result<ActionView, ExecuteError>,
) -> bool {
    let unchanged = post == pre && a1 == a0;
    if opcode == opcodes::OP0_RTRUE {
        unchanged && r == Ok::<_, ExecuteError>(ActionView::Return(1))
    } else if opcode == opcodes::OP0_RFALSE {
        unchanged && r == Ok::<_, ExecuteError>(ActionView::Return(0))
    } else if opcode == opcodes::OP0_PRINT {
        match spec_zstring(pre.mem, a0) {
            Some((t, k)) => post == (MachineView { output: pre.output + t, ..pre }) && a1 == a0 + 2
                * k && r == Ok::<_, ExecuteError>(ActionView::Continue),
            None => unchanged && r == Err::<ActionView, _>(
                ExecuteError::InvalidZString(a0 as usize),
            ),
        }
    } else if opcode == opcodes::OP0_PRINT_RET {
        match spec_zstring(pre.mem, a0) {
            Some((t, k)) => post == (MachineView {
                output: pre.output + t + seq!['\n'],
                ..pre
            }) && a1 == a0 + 2 * k && r == Ok::<_, ExecuteError>(ActionView::Return(1)),
            None => unchanged && r == Err::<ActionView, _>(
                ExecuteError::InvalidZString(a0 as usize),
            ),
        }
    } else if opcode == opcodes::OP0_NOP {
        unchanged && r == Ok::<_, ExecuteError>(ActionView::Continue)
    } else if opcode == opcodes::OP0_SAVE {
        if version_number(pre.mem) >= 5 {
            unchanged && r == Err::<ActionView, _>(ExecuteError::InvalidOpcode(opcode))
        } else {
            unchanged && r == Ok::<_, ExecuteError>(ActionView::Save)
        }
    } else if opcode == opcodes::OP0_RESTORE {
        if version_number(pre.mem) >= 5 {
            unchanged && r == Err::<ActionView, _>(ExecuteError::InvalidOpcode(opcode))
        } else {
            unchanged && r == Ok::<_, ExecuteError>(ActionView::Restore)
        }
    } else if opcode == opcodes::OP0_RESTART {
        unchanged && r == Ok::<_, ExecuteError>(ActionView::Restart)
    } else if opcode == opcodes::OP0_RET_POPPED {
        match var_read_step(pre, 0) {
            Ok((v2, value)) => post == v2 && a1 == a0 && r == Ok::<_, ExecuteError>(
                ActionView::Return(value),
            ),
            Err(e) => unchanged && r == Err::<ActionView, _>(e),
        }
    } else if opcode == opcodes::OP0_POP {
        if version_number(pre.mem) < 5 {
            match var_read_step(pre, 0) {
                Ok((v2, _)) => post == v2 && a1 == a0 && r == Ok::<_, ExecuteError>(
                    ActionView::Continue,
                ),
                Err(e) => unchanged && r == Err::<ActionView, _>(e),
            }
        } else {
            if pre.frames.len() > 0xFFFF {
                unchanged && r == Err::<ActionView, _>(
                    ExecuteError::InvalidInstructionFormat(a0 as usize),
                )
            } else {
                match store_step(pre, a0, pre.frames.len() as u16) {
                    Ok((v2, a2)) => post == v2 && a1 == a2 && r == Ok::<_, ExecuteError>(
                        ActionView::Continue,
                    ),
                    Err(e) => unchanged && r == Err::<ActionView, _>(e),
                }
            }
        }
    } else if opcode == opcodes::OP0_QUIT {
        post == (MachineView { halted: true, ..pre }) && a1 == a0 && r == Ok::<_, ExecuteError>(
            ActionView::Continue,
        )
    } else if opcode == opcodes::OP0_NEW_LINE {
        post == (MachineView { output: pre.output + seq!['\n'], ..pre }) && a1 == a0 && r == Ok::<
            _,
            ExecuteError,
        >(ActionView::Continue)
    } else if opcode == opcodes::OP0_SHOW_STATUS {
        unchanged && r == Ok::<_, ExecuteError>(ActionView::ShowStatus)
    } else if opcode == opcodes::OP0_VERIFY {
        if spec_file_length(pre.mem) > pre.mem.len() {
            unchanged && r == Err::<ActionView, _>(ExecuteError::BadAddress(a0 as usize))
        } else {
            match branch_step(
                pre.mem,
                a0,
                spec_checksum(pre.mem) == word_at(pre.mem, consts::FILE_CHECKSUM as int),
            ) {
                Ok((a2, o)) => post == pre && a1 == a2 && r == Ok::<_, ExecuteError>(
                    after_branch(o),
                ),
                Err(e) => unchanged && r == Err::<ActionView, _>(e),
            }
        }
    } else if opcode == opcodes::OP0_PIRACY {
        match branch_step(pre.mem, a0, true) {
            Ok((a2, o)) => post == pre && a1 == a2 && r == Ok::<_, ExecuteError>(after_branch(o)),
            Err(e) => unchanged && r == Err::<ActionView, _>(e),
        }
    } else {
        unchanged && r == Err::<ActionView, _>(ExecuteError::InvalidOpcode(opcode))
    }
}

impl ZMachine {
    /// Executes one zero-operand opcode. `addr` points just past the
    /// opcode octet and moves past whatever the instruction consumes.
    pub fn execute_op0(&mut self, addr: &mut ByteAddress, opcode: u8) -> (r: Result<
        crate::vm::Action,
        ExecuteError,
    >)
        requires
            old(self).wf(),
        ensures
            final(self).wf(),
            op0_post(
                old(self)@,
                old(addr).0 as int,
                opcode,
                final(self)@,
                final(addr).0 as int,
                result_view(r),
            ),
    {
        if opcode == opcodes::OP0_RTRUE {
            Ok(Action::Return(1))
        } else if opcode == opcodes::OP0_RFALSE {
            Ok(Action::Return(0))
        } else if opcode == opcodes::OP0_PRINT {
            let n = self.memory.len();
            match self.read_zstring(*addr) {
                Some((s, consumed)) => {
                    self.print(s.as_str());
                    *addr = ByteAddress(addr.0 + consumed);
                    Ok(Action::Continue)
                },
                None => Err(ExecuteError::InvalidZString(addr.0)),
            }
        } else if opcode == opcodes::OP0_PRINT_RET {
            let n = self.memory.len();
            match self.read_zstring(*addr) {
                Some((s, consumed)) => {
                    self.print(s.as_str());
                    self.print_newline();
                    *addr = ByteAddress(addr.0 + consumed);
                    Ok(Action::Return(1))
                },
                None => Err(ExecuteError::InvalidZString(addr.0)),
            }
        } else if opcode == opcodes::OP0_NOP {
            Ok(Action::Continue)
        } else if opcode == opcodes::OP0_SAVE {
            if self.version().number() >= 5 {
                Err(ExecuteError::InvalidOpcode(opcode))
            } else {
                Ok(Action::Save)
            }
        } else if opcode == opcodes::OP0_RESTORE {
            if self.version().number() >= 5 {
                Err(ExecuteError::InvalidOpcode(opcode))
            } else {
                Ok(Action::Restore)
            }
        } else if opcode == opcodes::OP0_RESTART {
            Ok(Action::Restart)
        } else if opcode == opcodes::OP0_RET_POPPED {
            match self.pop_stack() {
                Ok(value) => Ok(Action::Return(value)),
                Err(e) => Err(e),
            }
        } else if opcode == opcodes::OP0_POP {
            if self.version().number() < 5 {
                match self.pop_stack() {
                    Ok(_) => Ok(Action::Continue),
                    Err(e) => Err(e),
                }
            } else {
                if self.frames.len() > 0xFFFF {
                    return Err(ExecuteError::InvalidInstructionFormat(addr.0));
                }
                let frame = self.stack_frame();
                match self.store(frame, addr) {
                    Ok(()) => Ok(Action::Continue),
                    Err(e) => Err(e),
                }
            }
        } else if opcode == opcodes::OP0_QUIT {
            self.quit();
            Ok(Action::Continue)
        } else if opcode == opcodes::OP0_NEW_LINE {
            self.print_newline();
            Ok(Action::Continue)
        } else if opcode == opcodes::OP0_SHOW_STATUS {
            Ok(Action::ShowStatus)
        } else if opcode == opcodes::OP0_VERIFY {
            let checksum = match self.calculate_checksum() {
                Some(c) => c,
                None => {
                    return Err(ExecuteError::BadAddress(addr.0));
                },
            };
            let expected = self.word(ByteAddress(consts::FILE_CHECKSUM));
            match self.branch(checksum == expected, addr) {
                Ok(None) => Ok(Action::Continue),
                Ok(Some(a)) => Ok(a),
                Err(e) => Err(e),
            }
        } else if opcode == opcodes::OP0_PIRACY {
            match self.branch(true, addr) {
                Ok(None) => Ok(Action::Continue),
                Ok(Some(a)) => Ok(a),
                Err(e) => Err(e),
            }
        } else {
            Err(ExecuteError::InvalidOpcode(opcode))
        }
    }
}

} // verus!
