//! The one-operand opcode family.

use vstd::prelude::*;

use crate::bits::ByteAddress;
use crate::consts;
use crate::memory::word_at;
use crate::meta::{spec_packed_address, version_number};
use crate::objects::{obj_child, obj_name, obj_parent, obj_readable, obj_sibling};
use crate::text::spec_zstring;
use crate::vm::op0::after_branch;
use crate::vm::opcodes;
use crate::vm::{
    branch_step, call_args_new, call_args_of, result_view, set_var_step, sext16, store_step,
    var_read_step, Action, ActionView, ExecuteError,
};
use crate::{MachineView, ZMachine};

verus! {

/// Fetching the single operand at `a0` (the octet past the opcode),
/// whose type `t` the short-form opcode octet carries in bits 5 and 4: a
/// large constant, a small constant, or a variable (whose read may pop
/// the stack); an omitted operand is a format fault here. Yields the
/// state after the fetch, the address past the operand, its value, and
/// the variable number when the operand named one.
pub open spec fn op1_operand(pre: MachineView, a0: int, t: u8) -> Result<
    (MachineView, int, u16, Option<u8>),
    ExecuteError,
> {
    if t == 0 {
        if a0 + 1 >= pre.mem.len() {
            Err(ExecuteError::BadAddress(a0 as usize))
        } else {
            Ok((pre, a0 + 2, word_at(pre.mem, a0), None))
        }
    } else if t == 1 {
        if a0 >= pre.mem.len() {
            Err(ExecuteError::BadAddress(a0 as usize))
        } else {
            Ok((pre, a0 + 1, pre.mem[a0] as u16, None))
        }
    } else if t == 2 {
        if a0 >= pre.mem.len() {
            Err(ExecuteError::BadAddress(a0 as usize))
        } else {
            match var_read_step(pre, pre.mem[a0]) {
                Ok((v2, value)) => Ok((v2, a0 + 1, value, Some(pre.mem[a0]))),
                Err(e) => Err(e),
            }
        }
    } else {
        Err(ExecuteError::InvalidInstructionFormat(a0 as usize))
    }
}

/// Branching on `cond` through the branch postfix at `ap`, from state
/// `s`: how `post`, `a1` and `r` must come out.
pub open spec fn branch_after(
    s: MachineView,
    ap: int,
    cond: bool,
    post: MachineView,
    a1: int,
    r: Result<ActionView, ExecuteError>,
) -> bool {
    match branch_step(s.mem, ap, cond) {
        Ok((a2, o)) => post == s && a1 == a2 && r == Ok::<_, ExecuteError>(after_branch(o)),
        Err(e) => post == s && a1 == ap && r == Err::<ActionView, _>(e),
    }
}

/// Storing `value` through the store postfix at `ap`, from state `s`:
/// how `post`, `a1` and `r` must come out.
pub open spec fn store_after(
    s: MachineView,
    ap: int,
    value: u16,
    post: MachineView,
    a1: int,
    r: Result<ActionView, ExecuteError>,
) -> bool {
    match store_step(s, ap, value) {
        Ok((v2, a2)) => post == v2 && a1 == a2 && r == Ok::<_, ExecuteError>(ActionView::Continue),
        Err(e) => post == s && a1 == ap && r == Err::<ActionView, _>(e),
    }
}

/// Storing a family link, then branching on whether the link is there:
/// the shape of get_sibling and get_child.
pub open spec fn store_then_branch(
    s: MachineView,
    ap: int,
    value: u16,
    cond: bool,
    post: MachineView,
    a1: int,
    r: Result<ActionView, ExecuteError>,
) -> bool {
    match store_step(s, ap, value) {
        Ok((v2, a2)) => branch_after(v2, a2, cond, post, a1, r),
        Err(e) => post == s && a1 == ap && r == Err::<ActionView, _>(e),
    }
}

/// The length in octets of the property whose data starts at byte address
/// `val`, read from the size octet just before it.
pub open spec fn prop_len_at(mem: Seq<u8>, val: int) -> int {
    let b = mem[val - 1];
    if version_number(mem) <= 3 {
        (b >> 5u8) + 1
    } else if b & 0x80u8 == 0x80u8 {
        if b & 0x3Fu8 == 0u8 {
            64
        } else {
            (b & 0x3Fu8) as int
        }
    } else if b & 0x40u8 == 0x40u8 {
        2
    } else {
        1
    }
}

/// What one one-operand opcode does: relates the machine and address
/// before (`pre`, `a0`, just past the opcode octet) and after (`post`,
/// `a1`) and the instruction's result.
pub open spec fn op1_post(
    pre: MachineView,
    a0: int,
    opcode: u8,
    t: u8,
    post: MachineView,
    a1: int,
    r: Result<ActionView, ExecuteError>,
) -> bool {
    match op1_operand(pre, a0, t) {
        Err(e) => post == pre && a1 == a0 && r == Err::<ActionView, _>(e),
        Ok((s, ap, val, vn)) => {
            let unchanged = post == s && a1 == ap;
            if opcode == opcodes::OP1_JZ {
                branch_after(s, ap, val == 0, post, a1, r)
            } else if opcode == opcodes::OP1_GET_SIBLING {
                if !obj_readable(s.mem, val as int) {
                    unchanged && r == Err::<ActionView, _>(ExecuteError::BadAddress(ap as usize))
                } else {
                    let link = obj_sibling(s.mem, val as int);
                    store_then_branch(s, ap, link as u16, link != 0, post, a1, r)
                }
            } else if opcode == opcodes::OP1_GET_CHILD {
                if !obj_readable(s.mem, val as int) {
                    unchanged && r == Err::<ActionView, _>(ExecuteError::BadAddress(ap as usize))
                } else {
                    let link = obj_child(s.mem, val as int);
                    store_then_branch(s, ap, link as u16, link != 0, post, a1, r)
                }
            } else if opcode == opcodes::OP1_GET_PARENT {
                if !obj_readable(s.mem, val as int) {
                    unchanged && r == Err::<ActionView, _>(ExecuteError::BadAddress(ap as usize))
                } else {
                    store_after(s, ap, obj_parent(s.mem, val as int) as u16, post, a1, r)
                }
            } else if opcode == opcodes::OP1_GET_PROP_LEN {
                if val == 0 {
                    store_after(s, ap, 0, post, a1, r)
                } else if val as int > s.mem.len() {
                    unchanged && r == Err::<ActionView, _>(
                        ExecuteError::BadAddress((val - 1) as usize),
                    )
                } else {
                    store_after(s, ap, prop_len_at(s.mem, val as int) as u16, post, a1, r)
                }
            } else if opcode == opcodes::OP1_INC {
                match vn {
                    None => unchanged && r == Err::<ActionView, _>(
                        ExecuteError::InvalidInstructionFormat(ap as usize),
                    ),
                    Some(varnum) => match set_var_step(s, varnum, ((val + 1) % 0x10000) as u16) {
                        Ok(v2) => post == v2 && a1 == ap && r == Ok::<_, ExecuteError>(
                            ActionView::Continue,
                        ),
                        Err(e) => unchanged && r == Err::<ActionView, _>(e),
                    },
                }
            } else if opcode == opcodes::OP1_DEC {
                match vn {
                    None => unchanged && r == Err::<ActionView, _>(
                        ExecuteError::InvalidInstructionFormat(ap as usize),
                    ),
                    Some(varnum) => match set_var_step(
                        s,
                        varnum,
                        ((val + 0xFFFF) % 0x10000) as u16,
                    ) {
                        Ok(v2) => post == v2 && a1 == ap && r == Ok::<_, ExecuteError>(
                            ActionView::Continue,
                        ),
                        Err(e) => unchanged && r == Err::<ActionView, _>(e),
                    },
                }
            } else if opcode == opcodes::OP1_PRINT_ADDR {
                match spec_zstring(s.mem, val as int) {
                    Some((t, _)) => post == (MachineView { output: s.output + t, ..s }) && a1 == ap
                        && r == Ok::<_, ExecuteError>(ActionView::Continue),
                    None => unchanged && r == Err::<ActionView, _>(
                        ExecuteError::InvalidZString(val as usize),
                    ),
                }
            } else if opcode == opcodes::OP1_CALL_1S && version_number(pre.mem) >= 4 {
                if ap >= s.mem.len() {
                    unchanged && r == Err::<ActionView, _>(ExecuteError::BadAddress(ap as usize))
                } else {
                    post == s && a1 == ap + 1 && r == Ok::<_, ExecuteError>(
                        ActionView::Call {
                            addr: spec_packed_address(s.mem, val, true),
                            retvar: Some(s.mem[ap]),
                            args: Seq::<u16>::empty(),
                        },
                    )
                }
            } else if opcode == opcodes::OP1_REMOVE_OBJ {
                unchanged && r == Err::<ActionView, _>(ExecuteError::Unsupported(opcode))
            } else if opcode == opcodes::OP1_PRINT_OBJ {
                if !obj_readable(s.mem, val as int) {
                    unchanged && r == Err::<ActionView, _>(ExecuteError::BadAddress(ap as usize))
                } else {
                    match obj_name(s.mem, val as int) {
                        Some(t) => post == (MachineView { output: s.output + t, ..s }) && a1 == ap
                            && r == Ok::<_, ExecuteError>(ActionView::Continue),
                        None => unchanged && r == Err::<ActionView, _>(
                            ExecuteError::InvalidZString(ap as usize),
                        ),
                    }
                }
            } else if opcode == opcodes::OP1_RET {
                unchanged && r == Ok::<_, ExecuteError>(ActionView::Return(val))
            } else if opcode == opcodes::OP1_JUMP {
                let t = ap + sext16(val) - 2;
                if t < 0 || t > usize::MAX {
                    unchanged && r == Err::<ActionView, _>(ExecuteError::BadAddress(ap as usize))
                } else {
                    post == s && a1 == t && r == Ok::<_, ExecuteError>(ActionView::Continue)
                }
            } else if opcode == opcodes::OP1_PRINT_PADDR {
                let pa = spec_packed_address(s.mem, val, false);
                match spec_zstring(s.mem, pa) {
                    Some((t, _)) => post == (MachineView { output: s.output + t, ..s }) && a1 == ap
                        && r == Ok::<_, ExecuteError>(ActionView::Continue),
                    None => unchanged && r == Err::<ActionView, _>(
                        ExecuteError::InvalidZString(pa as usize),
                    ),
                }
            } else if opcode == opcodes::OP1_LOAD {
                match var_read_step(s, (val & 0xFFu16) as u8) {
                    Ok((s2, value)) => store_after(s2, ap, value, post, a1, r),
                    Err(e) => unchanged && r == Err::<ActionView, _>(e),
                }
            } else if opcode == opcodes::OP1_NOT {
                if version_number(pre.mem) <= 4 {
                    store_after(s, ap, !val, post, a1, r)
                } else {
                    post == s && a1 == ap && r == Ok::<_, ExecuteError>(
                        ActionView::Call {
                            addr: spec_packed_address(s.mem, val, true),
                            retvar: None,
                            args: Seq::<u16>::empty(),
                        },
                    )
                }
            } else {
                unchanged && r == Err::<ActionView, _>(ExecuteError::InvalidOpcode(opcode))
            }
        },
    }
}

impl ZMachine {
    /// Executes one one-operand opcode. `addr` points just past the
    /// opcode octet, at the operand-type octet, and moves past whatever
    /// the instruction consumes.
    #[verifier::rlimit(100)]
    #[verifier::spinoff_prover]
    pub fn execute_op1(&mut self, addr: &mut ByteAddress, opcode: u8, optype: u8) -> (r: Result<
        Action,
        ExecuteError,
    >)
        requires
            old(self).wf(),
        ensures
            final(self).wf(),
            op1_post(
                old(self)@,
                old(addr).0 as int,
                opcode,
                optype,
                final(self)@,
                final(addr).0 as int,
                result_view(r),
            ),
    {
        let n = self.memory.len();
        let a0 = addr.0;
        let mut varnum: Option<u8> = None;
        let val: u16;
        let ap: usize;
        if optype == 0 {
            if a0 >= n || a0 + 1 >= n {
                return Err(ExecuteError::BadAddress(a0));
            }
            val = self.word(ByteAddress(a0));
            ap = a0 + 2;
        } else if optype == 1 {
            if a0 >= n {
                return Err(ExecuteError::BadAddress(a0));
            }
            val = self.memory[a0] as u16;
            ap = a0 + 1;
        } else if optype == 2 {
            if a0 >= n {
                return Err(ExecuteError::BadAddress(a0));
            }
            let vn = self.memory[a0];
            val = match self.variable(vn) {
                Ok(v) => v,
                Err(e) => {
                    return Err(e);
                },
            };
            varnum = Some(vn);
            ap = a0 + 1;
        } else {
            return Err(ExecuteError::InvalidInstructionFormat(a0));
        }
        *addr = ByteAddress(ap);
        let v = self.version().number();
        if opcode == opcodes::OP1_JZ {
            match self.branch(val == 0, addr) {
                Ok(None) => Ok(Action::Continue),
                Ok(Some(a)) => Ok(a),
                Err(e) => Err(e),
            }
        } else if opcode == opcodes::OP1_GET_SIBLING {
            let obj = match self.object_unchecked(val as usize) {
                Some(o) => o,
                None => {
                    return Err(ExecuteError::BadAddress(ap));
                },
            };
            let link = match obj.sibling_id() {
                Some(s) => s,
                None => 0,
            };
            match self.store(link as u16, addr) {
                Ok(()) => (),
                Err(e) => {
                    return Err(e);
                },
            }
            match self.branch(link != 0, addr) {
                Ok(None) => Ok(Action::Continue),
                Ok(Some(a)) => Ok(a),
                Err(e) => Err(e),
            }
        } else if opcode == opcodes::OP1_GET_CHILD {
            let obj = match self.object_unchecked(val as usize) {
                Some(o) => o,
                None => {
                    return Err(ExecuteError::BadAddress(ap));
                },
            };
            let link = match obj.child_id() {
                Some(s) => s,
                None => 0,
            };
            match self.store(link as u16, addr) {
                Ok(()) => (),
                Err(e) => {
                    return Err(e);
                },
            }
            match self.branch(link != 0, addr) {
                Ok(None) => Ok(Action::Continue),
                Ok(Some(a)) => Ok(a),
                Err(e) => Err(e),
            }
        } else if opcode == opcodes::OP1_GET_PARENT {
            let obj = match self.object_unchecked(val as usize) {
                Some(o) => o,
                None => {
                    return Err(ExecuteError::BadAddress(ap));
                },
            };
            let link = match obj.parent_id() {
                Some(s) => s,
                None => 0,
            };
            match self.store(link as u16, addr) {
                Ok(()) => Ok(Action::Continue),
                Err(e) => Err(e),
            }
        } else if opcode == opcodes::OP1_GET_PROP_LEN {
            if val == 0 {
                match self.store(0, addr) {
                    Ok(()) => Ok(Action::Continue),
                    Err(e) => Err(e),
                }
            } else if val as usize > n {
                Err(ExecuteError::BadAddress((val - 1) as usize))
            } else {
                let b = self.memory[(val - 1) as usize];
                let len: u16 = if v <= 3 {
                    (b >> 5) as u16 + 1
                } else if b & 0x80 == 0x80 {
                    if b & 0x3F == 0 {
                        64
                    } else {
                        (b & 0x3F) as u16
                    }
                } else if b & 0x40 == 0x40 {
                    2
                } else {
                    1
                };
                match self.store(len, addr) {
                    Ok(()) => Ok(Action::Continue),
                    Err(e) => Err(e),
                }
            }
        } else if opcode == opcodes::OP1_INC {
            let vn = match varnum {
                Some(vn) => vn,
                None => {
                    return Err(ExecuteError::InvalidInstructionFormat(ap));
                },
            };
            let new_value: u16 = if val == 0xFFFF {
                0
            } else {
                val + 1
            };
            proof {
                assert(new_value == ((val + 1) % 0x10000) as u16);
            }
            match self.set_variable(vn, new_value) {
                Ok(()) => Ok(Action::Continue),
                Err(e) => Err(e),
            }
        } else if opcode == opcodes::OP1_DEC {
            let vn = match varnum {
                Some(vn) => vn,
                None => {
                    return Err(ExecuteError::InvalidInstructionFormat(ap));
                },
            };
            let new_value: u16 = if val == 0 {
                0xFFFF
            } else {
                val - 1
            };
            proof {
                assert(new_value == ((val + 0xFFFF) % 0x10000) as u16);
            }
            match self.set_variable(vn, new_value) {
                Ok(()) => Ok(Action::Continue),
                Err(e) => Err(e),
            }
        } else if opcode == opcodes::OP1_PRINT_ADDR {
            match self.zstring(ByteAddress(val as usize)) {
                Some(s) => {
                    self.print(s.as_str());
                    Ok(Action::Continue)
                },
                None => Err(ExecuteError::InvalidZString(val as usize)),
            }
        } else if opcode == opcodes::OP1_CALL_1S && v >= 4 {
            let target = self.resolve_packed_address(val, true);
            let retvar = match self.read_store(addr) {
                Ok(rv) => rv,
                Err(e) => {
                    return Err(e);
                },
            };
            Ok(Action::Call { addr: target, retvar: Some(retvar), args: call_args_new() })
        } else if opcode == opcodes::OP1_REMOVE_OBJ {
            Err(ExecuteError::Unsupported(opcode))
        } else if opcode == opcodes::OP1_PRINT_OBJ {
            let obj = match self.object_unchecked(val as usize) {
                Some(o) => o,
                None => {
                    return Err(ExecuteError::BadAddress(ap));
                },
            };
            match obj.read_name() {
                Some(name) => {
                    self.print(name.as_str());
                    Ok(Action::Continue)
                },
                None => Err(ExecuteError::InvalidZString(ap)),
            }
        } else if opcode == opcodes::OP1_RET {
            Ok(Action::Return(val))
        } else if opcode == opcodes::OP1_JUMP {
            match self.jump(addr, val) {
                Ok(()) => Ok(Action::Continue),
                Err(e) => Err(e),
            }
        } else if opcode == opcodes::OP1_PRINT_PADDR {
            let pa = self.resolve_packed_address(val, false);
            match self.zstring(pa) {
                Some(s) => {
                    self.print(s.as_str());
                    Ok(Action::Continue)
                },
                None => Err(ExecuteError::InvalidZString(pa.0)),
            }
        } else if opcode == opcodes::OP1_LOAD {
            proof {
                assert(val & 0xFFu16 < 256) by (bit_vector);
            }
            let value = match self.variable((val & 0xFF) as u8) {
                Ok(value) => value,
                Err(e) => {
                    return Err(e);
                },
            };
            match self.store(value, addr) {
                Ok(()) => Ok(Action::Continue),
                Err(e) => Err(e),
            }
        } else if opcode == opcodes::OP1_NOT {
            if v <= 4 {
                match self.store(!val, addr) {
                    Ok(()) => Ok(Action::Continue),
                    Err(e) => Err(e),
                }
            } else {
                let target = self.resolve_packed_address(val, true);
                Ok(Action::Call { addr: target, retvar: None, args: call_args_new() })
            }
        } else {
            Err(ExecuteError::InvalidOpcode(opcode))
        }
    }
}

} // verus!
