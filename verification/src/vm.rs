//! Execution state and the instruction machinery: call frames, the
//! evaluation stack, variable addressing, branch and store post-reads, and
//! the per-family opcode handlers.
//!
//! Host input/output stays outside the core: text output goes to the
//! machine's transcript, and anything that needs the host (saving,
//! restoring, showing the status line, quitting, restarting) is reported
//! to the driver as an [`Action`].

use vstd::prelude::*;

use crate::bits::ByteAddress;
use crate::consts;
use crate::memory::{in_dynamic_memory, with_mem, word_at, MemoryError};
use crate::{MachineView, ZMachine};

pub mod op0;
pub mod op1;
pub mod opcodes;

verus! {

/// The mathematical value of a call frame.
pub ghost struct FrameView {
    /// Where execution resumes when the frame returns.
    pub ret_pc: int,
    /// The variable receiving the routine's result, if any.
    pub ret_var: Option<u8>,
    /// The routine's local variables.
    pub locals: Seq<u16>,
    /// The evaluation-stack depth when the frame was pushed.
    pub stack_base: int,
}

/// One routine activation: return address, return-variable slot, locals,
/// and the evaluation-stack watermark.
pub struct Frame {
    pub(crate) ret_pc: usize,
    pub(crate) ret_var: Option<u8>,
    pub(crate) locals: Vec<u16>,
    pub(crate) stack_base: usize,
}

impl View for Frame {
    type V = FrameView;

    closed spec fn view(&self) -> FrameView {
        FrameView {
            ret_pc: self.ret_pc as int,
            ret_var: self.ret_var,
            locals: self.locals@,
            stack_base: self.stack_base as int,
        }
    }
}

/// Errors that can occur while decoding or executing instructions.
#[derive(Debug, Clone, Copy, PartialEq, Eq, Structural)]
pub enum ExecuteError {
    /// The opcode is not defined for the story's version.
    InvalidOpcode(u8),
    /// The instruction is malformed at this address: a wrong operand
    /// kind, a missing operand, a variable this frame does not have, or
    /// an empty evaluation stack where a value was owed.
    InvalidInstructionFormat(usize),
    /// A read or write reached past the image end, at this address.
    BadAddress(usize),
    /// A write reached static or high memory, at this address.
    ReadOnlyMemory(usize),
    /// No valid Z-string starts at this address.
    InvalidZString(usize),
    /// The opcode is real but this core does not provide its dispatch.
    Unsupported(u8),
}

/// The arguments of a routine call: arrayvec's fixed-capacity vector of
/// up to seven story words, held behind an opaque wrapper because Verus
/// cannot read the crate's `Array`-bounded type itself.
#[verifier::external_body]
pub struct CallArgs {
    inner: arrayvec::ArrayVec<[u16; 7]>,
}

/// What a call-argument vector holds, in order.
pub uninterp spec fn call_args_of(v: CallArgs) -> Seq<u16>;

/// Relies on arrayvec's ArrayVec::new: the new vector is empty.
#[verifier::external_body]
pub fn call_args_new() -> (r: CallArgs)
    ensures
        call_args_of(r) == Seq::<u16>::empty(),
{
    CallArgs { inner: arrayvec::ArrayVec::new() }
}

/// Relies on arrayvec's ArrayVec::try_push: appends and returns Ok
/// exactly when the vector is below its capacity of 7, which the
/// precondition guarantees.
#[verifier::external_body]
pub fn call_args_push(v: &mut CallArgs, x: u16) -> (r: bool)
    requires
        call_args_of(*old(v)).len() < 7,
    ensures
        r,
        call_args_of(*final(v)) == call_args_of(*old(v)).push(x),
{
    v.inner.try_push(x).is_ok()
}

/// Relies on arrayvec's ArrayVec::len: the number of elements held.
#[verifier::external_body]
pub fn call_args_len(v: &CallArgs) -> (r: usize)
    ensures
        r == call_args_of(*v).len(),
{
    v.inner.len()
}

/// Relies on arrayvec's Index implementation (through its slice view):
/// the element at `i`.
#[verifier::external_body]
pub fn call_args_get(v: &CallArgs, i: usize) -> (r: u16)
    requires
        i < call_args_of(*v).len(),
    ensures
        r == call_args_of(*v)[i as int],
{
    v.inner.as_slice()[i]
}

/// What the driver loop should do after one instruction: go on, transfer
/// control, or perform a host service the core cannot.
pub enum Action {
    /// Advance normally.
    Continue,
    /// Pop the current call frame and hand this value to the caller.
    Return(u16),
    /// Push a new call frame.
    Call {
        /// The routine's byte address.
        addr: ByteAddress,
        /// The variable receiving the routine's result, if any.
        retvar: Option<u8>,
        /// The call's arguments.
        args: CallArgs,
    },
    /// Ask the host to save; then hand the outcome to
    /// [`ZMachine::finish_save`].
    Save,
    /// Ask the host to restore; then hand the outcome to
    /// [`ZMachine::finish_restore`].
    Restore,
    /// Redraw the status line.
    ShowStatus,
    /// Restart the game.
    Restart,
}

/// The mathematical value of an [`Action`], with the call arguments as a
/// sequence.
pub ghost enum ActionView {
    Continue,
    Return(u16),
    Call { addr: int, retvar: Option<u8>, args: Seq<u16> },
    Save,
    Restore,
    ShowStatus,
    Restart,
}

impl View for Action {
    type V = ActionView;

    open spec fn view(&self) -> ActionView {
        match self {
            Action::Continue => ActionView::Continue,
            Action::Return(v) => ActionView::Return(*v),
            Action::Call { addr, retvar, args } => ActionView::Call {
                addr: addr.0 as int,
                retvar: *retvar,
                args: call_args_of(*args),
            },
            Action::Save => ActionView::Save,
            Action::Restore => ActionView::Restore,
            Action::ShowStatus => ActionView::ShowStatus,
            Action::Restart => ActionView::Restart,
        }
    }
}

/// The result of one instruction, at the mathematical level.
pub open spec fn result_view(r: Result<Action, ExecuteError>) -> Result<
    ActionView,
    ExecuteError,
> {
    match r {
        Ok(a) => Ok(a@),
        Err(e) => Err(e),
    }
}

/// The base byte address of the global variables table.
pub open spec fn globals_base(mem: Seq<u8>) -> int {
    word_at(mem, consts::GLOBAL_VARIABLE_TABLE_LOCATION as int) as int
}

/// The byte address of global variable `var` (variable numbers 16 and
/// up).
pub open spec fn global_addr(mem: Seq<u8>, var: u8) -> int {
    globals_base(mem) + 2 * (var - 16)
}

/// The evaluation-stack depth below which the current routine may not
/// pop.
pub open spec fn stack_watermark(v: MachineView) -> int {
    if v.frames.len() == 0 {
        0
    } else {
        v.frames.last().stack_base
    }
}

/// Reading a variable: variable 0 pops the evaluation stack, 1 through 15
/// read the current routine's locals, 16 and up read a global word.
/// Yields the state after the read and the value, or the fault.
pub open spec fn var_read_step(v: MachineView, var: u8) -> Result<(MachineView, u16), ExecuteError> {
    if var == 0 {
        if v.stack.len() > stack_watermark(v) {
            Ok((MachineView { stack: v.stack.drop_last(), ..v }, v.stack.last()))
        } else {
            Err(ExecuteError::InvalidInstructionFormat(var as usize))
        }
    } else if var < 16 {
        if v.frames.len() > 0 && var <= v.frames.last().locals.len() {
            Ok((v, v.frames.last().locals[var - 1]))
        } else {
            Err(ExecuteError::InvalidInstructionFormat(var as usize))
        }
    } else {
        let ga = global_addr(v.mem, var);
        if ga + 1 < v.mem.len() {
            Ok((v, word_at(v.mem, ga)))
        } else {
            Err(ExecuteError::BadAddress(ga as usize))
        }
    }
}

/// Writing a variable: variable 0 pushes the evaluation stack, 1 through
/// 15 write the current routine's locals, 16 and up write a global word
/// (dynamic memory only). Yields the state after the write, or the fault.
pub open spec fn set_var_step(v: MachineView, var: u8, value: u16) -> Result<
    MachineView,
    ExecuteError,
> {
    if var == 0 {
        Ok(MachineView { stack: v.stack.push(value), ..v })
    } else if var < 16 {
        if v.frames.len() > 0 && var <= v.frames.last().locals.len() {
            let f = v.frames.last();
            Ok(
                MachineView {
                    frames: v.frames.update(
                        v.frames.len() - 1,
                        FrameView { locals: f.locals.update(var - 1, value), ..f },
                    ),
                    ..v
                },
            )
        } else {
            Err(ExecuteError::InvalidInstructionFormat(var as usize))
        }
    } else {
        let ga = global_addr(v.mem, var);
        if ga + 1 >= v.mem.len() {
            Err(ExecuteError::BadAddress(ga as usize))
        } else if ga < 2 || !in_dynamic_memory(v.mem, ga + 1) || !in_dynamic_memory(v.mem, ga) {
            // A globals table that overlaps the version octet is
            // malformed; such a write is refused like any write outside
            // dynamic memory.
            Err(ExecuteError::ReadOnlyMemory(ga as usize))
        } else {
            Ok(
                with_mem(
                    v,
                    v.mem.update(ga, (value >> 8u16) as u8).update(ga + 1, (value & 0xFFu16) as u8),
                ),
            )
        }
    }
}

impl ZMachine {
    /// Returns the value of a global variable, a local of the current
    /// routine, or pops the evaluation stack for variable 0.
    pub fn variable(&mut self, var: u8) -> (r: Result<u16, ExecuteError>)
        requires
            old(self).wf(),
        ensures
            final(self).wf(),
            match r {
                Ok(value) => var_read_step(old(self)@, var) == Ok::<_, ExecuteError>(
                    (final(self)@, value),
                ),
                Err(e) => var_read_step(old(self)@, var) == Err::<(MachineView, u16), _>(e)
                    && final(self)@ == old(self)@,
            },
    {
        if var == 0 {
            let wm = if self.frames.len() == 0 {
                0
            } else {
                self.frames[self.frames.len() - 1].stack_base
            };
            if self.stack.len() > wm {
                match self.stack.pop() {
                    Some(v) => Ok(v),
                    None => {
                        proof {
                            assert(false);
                        }
                        Err(ExecuteError::InvalidInstructionFormat(0))
                    },
                }
            } else {
                Err(ExecuteError::InvalidInstructionFormat(var as usize))
            }
        } else if var < 16 {
            let nf = self.frames.len();
            if nf > 0 && (var as usize) <= self.frames[nf - 1].locals.len() {
                Ok(self.frames[nf - 1].locals[(var - 1) as usize])
            } else {
                Err(ExecuteError::InvalidInstructionFormat(var as usize))
            }
        } else {
            let base = self.word(ByteAddress(consts::GLOBAL_VARIABLE_TABLE_LOCATION)) as usize;
            let ga = base + 2 * ((var - 16) as usize);
            match self.try_word(ByteAddress(ga)) {
                Some(w) => Ok(w),
                None => Err(ExecuteError::BadAddress(ga)),
            }
        }
    }

    /// Sets a global variable or a local of the current routine, or
    /// pushes the evaluation stack for variable 0.
    pub fn set_variable(&mut self, var: u8, value: u16) -> (r: Result<(), ExecuteError>)
        requires
            old(self).wf(),
        ensures
            final(self).wf(),
            match r {
                Ok(()) => set_var_step(old(self)@, var, value) == Ok::<_, ExecuteError>(
                    final(self)@,
                ),
                Err(e) => set_var_step(old(self)@, var, value) == Err::<MachineView, _>(e)
                    && final(self)@ == old(self)@,
            },
    {
        if var == 0 {
            self.stack.push(value);
            Ok(())
        } else if var < 16 {
            let nf = self.frames.len();
            if nf > 0 && (var as usize) <= self.frames[nf - 1].locals.len() {
                let mut f = match self.frames.pop() {
                    Some(f) => f,
                    None => {
                        proof {
                            assert(false);
                        }
                        return Err(ExecuteError::InvalidInstructionFormat(var as usize));
                    },
                };
                f.locals.set((var - 1) as usize, value);
                self.frames.push(f);
                proof {
                    assert(final(self)@.frames =~= (match set_var_step(old(self)@, var, value) {
                        Ok(v) => v.frames,
                        Err(_) => final(self)@.frames,
                    }));
                }
                Ok(())
            } else {
                Err(ExecuteError::InvalidInstructionFormat(var as usize))
            }
        } else {
            let base = self.word(ByteAddress(consts::GLOBAL_VARIABLE_TABLE_LOCATION)) as usize;
            let ga = base + 2 * ((var - 16) as usize);
            let n = self.memory.len();
            if ga + 1 >= n {
                return Err(ExecuteError::BadAddress(ga));
            }
            if ga < 2 {
                return Err(ExecuteError::ReadOnlyMemory(ga));
            }
            match self.write_word(ByteAddress(ga), value) {
                Ok(()) => Ok(()),
                Err(MemoryError::BadAddress) => Err(ExecuteError::BadAddress(ga)),
                Err(MemoryError::ReadOnlyMemory) => Err(ExecuteError::ReadOnlyMemory(ga)),
            }
        }
    }

    /// Pops the top value off of the evaluation stack and returns it; a
    /// fault when the current routine has nothing left to pop.
    pub fn pop_stack(&mut self) -> (r: Result<u16, ExecuteError>)
        requires
            old(self).wf(),
        ensures
            final(self).wf(),
            match r {
                Ok(value) => var_read_step(old(self)@, 0) == Ok::<_, ExecuteError>(
                    (final(self)@, value),
                ),
                Err(e) => {
                    &&& var_read_step(old(self)@, 0) == Err::<(MachineView, u16), _>(e)
                    &&& final(self)@ == old(self)@
                },
            },
    {
        self.variable(0)
    }

    /// Returns the current call-frame count, the value the catch opcode
    /// stores.
    pub fn stack_frame(&self) -> (r: u16)
        requires
            self@.frames.len() <= u16::MAX,
        ensures
            r == self@.frames.len(),
    {
        self.frames.len() as u16
    }

    /// Appends text to the machine's output transcript.
    pub fn print(&mut self, string: &str)
        ensures
            final(self)@ == (MachineView { output: old(self)@.output + string@, ..old(self)@ }),
    {
        self.output.append(string);
    }

    /// Appends a newline to the machine's output transcript.
    pub fn print_newline(&mut self)
        ensures
            final(self)@ == (MachineView {
                output: old(self)@.output + seq!['\n'],
                ..old(self)@
            }),
    {
        proof {
            reveal_strlit("\n");
            assert("\n"@ =~= seq!['\n']);
        }
        self.print("\n");
    }

    /// Stops execution: the driver loop ends once the machine is halted.
    pub fn quit(&mut self)
        ensures
            final(self)@ == (MachineView { halted: true, ..old(self)@ }),
    {
        self.halted = true;
    }

    /// Everything printed so far: the machine's output transcript, which
    /// a driver drains to the screen.
    pub fn output_text(&self) -> (r: &String)
        ensures
            r@ == self@.output,
    {
        &self.output
    }

    /// Whether a quit instruction has been executed.
    pub fn halted(&self) -> (r: bool)
        ensures
            r == self@.halted,
    {
        self.halted
    }

    /// Resets the execution state: the evaluation stack and call frames
    /// are cleared, the machine runs again, and the initial program
    /// counter from the header is returned. The story image itself is the
    /// loader's to restore.
    pub fn restart(&mut self) -> (r: ByteAddress)
        requires
            old(self).wf(),
        ensures
            final(self)@ == (MachineView {
                stack: Seq::<u16>::empty(),
                frames: Seq::<FrameView>::empty(),
                halted: false,
                ..old(self)@
            }),
            r.0 == word_at(old(self).mem(), consts::INITIAL_PC_LOCATION as int),
    {
        let pc = self.word(ByteAddress(consts::INITIAL_PC_LOCATION));
        self.stack = Vec::new();
        self.frames = Vec::new();
        self.halted = false;
        proof {
            assert(final(self)@.frames =~= Seq::<FrameView>::empty());
        }
        ByteAddress(pc as usize)
    }
}

/// A 16-bit story word read as a signed two's-complement value.
pub open spec fn sext16(w: u16) -> int {
    if w < 0x8000 {
        w as int
    } else {
        w as int - 0x10000
    }
}

/// A 14-bit branch offset read as a signed two's-complement value.
pub open spec fn sext14(x: int) -> int {
    if x < 0x2000 {
        x
    } else {
        x - 0x4000
    }
}

/// Decoding the 1- or 2-octet branch postfix at `a0` with a test that
/// came out `success`: bit 7 of the first octet is the polarity, bit 6
/// selects the short (6-bit unsigned) or long (14-bit signed) offset.
/// Yields the next instruction address and, for the offsets 0 and 1, the
/// "return false/true" action instead of a jump.
pub open spec fn branch_step(mem: Seq<u8>, a0: int, success: bool) -> Result<
    (int, Option<ActionView>),
    ExecuteError,
> {
    if a0 >= mem.len() {
        Err(ExecuteError::BadAddress(a0 as usize))
    } else {
        let top = mem[a0];
        let taken = if top & 0x80u8 == 0u8 {
            !success
        } else {
            success
        };
        if top & 0x40u8 != 0u8 {
            let a1 = a0 + 1;
            let off = (top & 0x3Fu8) as int;
            if !taken {
                Ok((a1, None))
            } else if off == 0 {
                Ok((a1, Some(ActionView::Return(0))))
            } else if off == 1 {
                Ok((a1, Some(ActionView::Return(1))))
            } else if a1 + off - 2 > usize::MAX {
                Err(ExecuteError::BadAddress(a0 as usize))
            } else {
                Ok((a1 + off - 2, None))
            }
        } else {
            if a0 + 1 >= mem.len() {
                Err(ExecuteError::BadAddress((a0 + 1) as usize))
            } else {
                let a1 = a0 + 2;
                let off = sext14((mem[a0] & 0x3Fu8) as int * 256 + mem[a0 + 1] as int);
                if !taken {
                    Ok((a1, None))
                } else if off == 0 {
                    Ok((a1, Some(ActionView::Return(0))))
                } else if off == 1 {
                    Ok((a1, Some(ActionView::Return(1))))
                } else if a1 + off - 2 < 0 || a1 + off - 2 > usize::MAX {
                    Err(ExecuteError::BadAddress(a0 as usize))
                } else {
                    Ok((a1 + off - 2, None))
                }
            }
        }
    }
}

/// The mathematical value of a branch outcome.
pub open spec fn opt_action_view(o: Option<Action>) -> Option<ActionView> {
    match o {
        Some(a) => Some(a@),
        None => None,
    }
}

/// Writing `value` through the store postfix at `a0`: the octet names the
/// destination variable. Yields the new state and the next instruction
/// address, or the fault.
pub open spec fn store_step(v: MachineView, a0: int, value: u16) -> Result<
    (MachineView, int),
    ExecuteError,
> {
    if a0 >= v.mem.len() {
        Err(ExecuteError::BadAddress(a0 as usize))
    } else {
        match set_var_step(v, v.mem[a0], value) {
            Ok(v2) => Ok((v2, a0 + 1)),
            Err(e) => Err(e),
        }
    }
}

/// The local variables a routine starts with: the first locals take the
/// call's arguments; the rest read their initial words (before version
/// 5) or start at zero (version 5 and later).
pub open spec fn routine_locals(mem: Seq<u8>, addr: int, args: Seq<u16>, count: int) -> Seq<u16> {
    Seq::new(
        count as nat,
        |i: int|
            if i < args.len() {
                args[i]
            } else if crate::meta::version_number(mem) >= 5 {
                0u16
            } else {
                word_at(mem, addr + 1 + 2 * i)
            },
    )
}

impl ZMachine {
    /// Reads the branch postfix at `addr` and applies it: on a taken
    /// branch `addr` moves to the target, and the special offsets 0 and 1
    /// yield a "return false/true" action instead. On a fault `addr` is
    /// left unchanged.
    pub fn branch(&self, success: bool, addr: &mut ByteAddress) -> (r: Result<
        Option<Action>,
        ExecuteError,
    >)
        requires
            self.wf(),
        ensures
            match r {
                Ok(o) => branch_step(self.mem(), old(addr).0 as int, success) == Ok::<
                    _,
                    ExecuteError,
                >((final(addr).0 as int, opt_action_view(o))),
                Err(e) => {
                    &&& branch_step(self.mem(), old(addr).0 as int, success) == Err::<
                        (int, Option<ActionView>),
                        _,
                    >(e)
                    &&& *final(addr) == *old(addr)
                },
            },
    {
        let n = self.memory.len();
        let a0 = addr.0;
        let top = match self.try_byte(ByteAddress(a0)) {
            Some(b) => b,
            None => {
                return Err(ExecuteError::BadAddress(a0));
            },
        };
        let taken = if top & 0x80 == 0 {
            !success
        } else {
            success
        };
        if top & 0x40 != 0 {
            let a1 = a0 + 1;
            let off = (top & 0x3F) as usize;
            if !taken {
                *addr = ByteAddress(a1);
                Ok(None)
            } else if off == 0 {
                *addr = ByteAddress(a1);
                Ok(Some(Action::Return(0)))
            } else if off == 1 {
                *addr = ByteAddress(a1);
                Ok(Some(Action::Return(1)))
            } else {
                match a1.checked_add(off - 2) {
                    Some(t) => {
                        *addr = ByteAddress(t);
                        Ok(None)
                    },
                    None => Err(ExecuteError::BadAddress(a0)),
                }
            }
        } else {
            let bottom = match self.try_byte(ByteAddress(a0 + 1)) {
                Some(b) => b,
                None => {
                    return Err(ExecuteError::BadAddress(a0 + 1));
                },
            };
            let a1 = a0 + 2;
            proof {
                assert(top & 0x3Fu8 < 64) by (bit_vector);
            }
            let raw: usize = ((top & 0x3F) as usize) * 256 + bottom as usize;
            if !taken {
                *addr = ByteAddress(a1);
                return Ok(None);
            }
            if raw == 0 {
                *addr = ByteAddress(a1);
                return Ok(Some(Action::Return(0)));
            }
            if raw == 1 {
                *addr = ByteAddress(a1);
                return Ok(Some(Action::Return(1)));
            }
            if raw < 0x2000 {
                match a1.checked_add(raw - 2) {
                    Some(t) => {
                        *addr = ByteAddress(t);
                        Ok(None)
                    },
                    None => Err(ExecuteError::BadAddress(a0)),
                }
            } else {
                let back = 0x4000 - raw;
                // the target is a1 - back - 2 notated positively
                if a1 < back + 2 {
                    Err(ExecuteError::BadAddress(a0))
                } else {
                    *addr = ByteAddress(a1 - back - 2);
                    Ok(None)
                }
            }
        }
    }

    /// Reads the store postfix at `addr` and writes `value` into the
    /// variable it names, advancing `addr` past it. On a fault `addr` is
    /// left unchanged.
    pub fn store(&mut self, value: u16, addr: &mut ByteAddress) -> (r: Result<(), ExecuteError>)
        requires
            old(self).wf(),
        ensures
            final(self).wf(),
            match r {
                Ok(()) => store_step(old(self)@, old(addr).0 as int, value) == Ok::<
                    _,
                    ExecuteError,
                >((final(self)@, final(addr).0 as int)),
                Err(e) => {
                    &&& store_step(old(self)@, old(addr).0 as int, value) == Err::<
                        (MachineView, int),
                        _,
                    >(e)
                    &&& final(self)@ == old(self)@
                    &&& *final(addr) == *old(addr)
                },
            },
    {
        let n = self.memory.len();
        let a0 = addr.0;
        let var = match self.try_byte(ByteAddress(a0)) {
            Some(b) => b,
            None => {
                return Err(ExecuteError::BadAddress(a0));
            },
        };
        match self.set_variable(var, value) {
            Ok(()) => {
                *addr = ByteAddress(a0 + 1);
                Ok(())
            },
            Err(e) => Err(e),
        }
    }

    /// Reads the store postfix at `addr`: the destination variable
    /// number, advancing `addr` past it.
    pub fn read_store(&self, addr: &mut ByteAddress) -> (r: Result<u8, ExecuteError>)
        requires
            self.wf(),
        ensures
            match r {
                Ok(var) => {
                    &&& old(addr).0 < self.mem().len()
                    &&& var == self.mem()[old(addr).0 as int]
                    &&& final(addr).0 == old(addr).0 + 1
                },
                Err(e) => {
                    &&& e == ExecuteError::BadAddress(old(addr).0 as usize)
                    &&& old(addr).0 >= self.mem().len()
                    &&& *final(addr) == *old(addr)
                },
            },
    {
        let n = self.memory.len();
        let a0 = addr.0;
        match self.try_byte(ByteAddress(a0)) {
            Some(b) => {
                *addr = ByteAddress(a0 + 1);
                Ok(b)
            },
            None => Err(ExecuteError::BadAddress(a0)),
        }
    }

    /// Performs the unconditional jump: moves `addr` by the operand read
    /// as a signed word, less the customary 2. A target before the image
    /// start is a fault.
    pub fn jump(&self, addr: &mut ByteAddress, operand: u16) -> (r: Result<(), ExecuteError>)
        requires
            self.wf(),
        ensures
            match r {
                Ok(()) => {
                    &&& 0 <= old(addr).0 + sext16(operand) - 2 <= usize::MAX
                    &&& final(addr).0 == old(addr).0 + sext16(operand) - 2
                },
                Err(e) => {
                    &&& e == ExecuteError::BadAddress(old(addr).0 as usize)
                    &&& (old(addr).0 + sext16(operand) - 2 < 0 || old(addr).0 + sext16(operand) - 2
                        > usize::MAX)
                    &&& *final(addr) == *old(addr)
                },
            },
    {
        let a0 = addr.0;
        if operand < 0x8000 {
            if operand >= 2 {
                match a0.checked_add((operand - 2) as usize) {
                    Some(t) => {
                        *addr = ByteAddress(t);
                        Ok(())
                    },
                    None => Err(ExecuteError::BadAddress(a0)),
                }
            } else {
                let back = (2 - operand) as usize;
                if a0 < back {
                    Err(ExecuteError::BadAddress(a0))
                } else {
                    *addr = ByteAddress(a0 - back);
                    Ok(())
                }
            }
        } else {
            let back = (0x10000u32 - operand as u32 + 2) as usize;
            if a0 < back {
                Err(ExecuteError::BadAddress(a0))
            } else {
                *addr = ByteAddress(a0 - back);
                Ok(())
            }
        }
    }

    /// Enters a routine: reads its local count and initial locals at
    /// `addr`, seeds the first locals from the call's arguments, pushes
    /// the call frame, and returns the address execution resumes at.
    pub fn invoke_routine(
        &mut self,
        addr: ByteAddress,
        ret_pc: ByteAddress,
        ret_var: Option<u8>,
        args: &CallArgs,
    ) -> (r: Result<ByteAddress, ExecuteError>)
        requires
            old(self).wf(),
        ensures
            final(self).wf(),
            match r {
                Ok(entry) => {
                    &&& addr.0 < old(self).mem().len()
                    &&& old(self).mem()[addr.0 as int] <= 15
                    &&& {
                        let count = old(self).mem()[addr.0 as int] as int;
                        let v5 = crate::meta::version_number(old(self).mem()) >= 5;
                        &&& (v5 || addr.0 + 1 + 2 * count < old(self).mem().len())
                        &&& entry.0 == (if v5 {
                            addr.0 + 1
                        } else {
                            addr.0 + 1 + 2 * count
                        })
                        &&& final(self)@ == (MachineView {
                            frames: old(self)@.frames.push(
                                FrameView {
                                    ret_pc: ret_pc.0 as int,
                                    ret_var,
                                    locals: routine_locals(
                                        old(self).mem(),
                                        addr.0 as int,
                                        call_args_of(*args),
                                        count,
                                    ),
                                    stack_base: old(self)@.stack.len() as int,
                                },
                            ),
                            ..old(self)@
                        })
                    }
                },
                Err(ExecuteError::BadAddress(a)) => {
                    &&& final(self)@ == old(self)@
                    &&& (addr.0 >= old(self).mem().len() || (crate::meta::version_number(
                        old(self).mem(),
                    ) < 5 && old(self).mem()[addr.0 as int] <= 15 && addr.0 + 1 + 2 * old(
                        self,
                    ).mem()[addr.0 as int] >= old(self).mem().len()))
                },
                Err(ExecuteError::InvalidInstructionFormat(_)) => {
                    &&& final(self)@ == old(self)@
                    &&& addr.0 < old(self).mem().len()
                    &&& old(self).mem()[addr.0 as int] > 15
                },
                Err(_) => false,
            },
    {
        let ghost m = self.mem();
        let n = self.memory.len();
        let count = match self.try_byte(addr) {
            Some(b) => b,
            None => {
                return Err(ExecuteError::BadAddress(addr.0));
            },
        } as usize;
        if count > 15 {
            return Err(ExecuteError::InvalidInstructionFormat(addr.0));
        }
        let v = self.version().number();
        if v < 5 {
            if 2 * count >= n - (addr.0 + 1) {
                return Err(ExecuteError::BadAddress(addr.0));
            }
        }
        let nargs = call_args_len(args);
        let mut locals: Vec<u16> = Vec::new();
        let mut i: usize = 0;
        while i < count
            invariant
                self.wf(),
                m == self.mem(),
                i <= count,
                count <= 15,
                addr.0 < m.len(),
                v == crate::meta::version_number(m),
                v < 5 ==> addr.0 + 1 + 2 * count < m.len(),
                m.len() <= usize::MAX,
                nargs == call_args_of(*args).len(),
                locals@ =~= routine_locals(m, addr.0 as int, call_args_of(*args), count as int)
                    .take(i as int),
            decreases count - i,
        {
            let value: u16 = if i < nargs {
                call_args_get(args, i)
            } else if v >= 5 {
                0
            } else {
                self.word(ByteAddress(addr.0 + 1 + 2 * i))
            };
            locals.push(value);
            proof {
                assert(locals@ =~= routine_locals(
                    m,
                    addr.0 as int,
                    call_args_of(*args),
                    count as int,
                ).take(i + 1));
            }
            i = i + 1;
        }
        let frame = Frame {
            ret_pc: ret_pc.0,
            ret_var,
            locals,
            stack_base: self.stack.len(),
        };
        self.frames.push(frame);
        proof {
            assert(routine_locals(m, addr.0 as int, call_args_of(*args), count as int).take(
                count as int,
            ) =~= routine_locals(m, addr.0 as int, call_args_of(*args), count as int));
            assert(final(self)@.frames =~= old(self)@.frames.push(
                FrameView {
                    ret_pc: ret_pc.0 as int,
                    ret_var,
                    locals: routine_locals(m, addr.0 as int, call_args_of(*args), count as int),
                    stack_base: old(self)@.stack.len() as int,
                },
            ));
        }
        if v >= 5 {
            Ok(ByteAddress(addr.0 + 1))
        } else {
            Ok(ByteAddress(addr.0 + 1 + 2 * count))
        }
    }

    /// Pops the current call frame and hands `value` to the caller:
    /// the evaluation stack falls back to the frame's watermark, the
    /// frame's return variable (if any) receives the value, and the
    /// caller's resume address is returned. With no frame to pop, the
    /// main routine returned, which is a fault.
    pub fn return_from_routine(&mut self, value: u16) -> (r: Result<ByteAddress, ExecuteError>)
        requires
            old(self).wf(),
        ensures
            final(self).wf(),
            ({
                let pre = old(self)@;
                if pre.frames.len() == 0 {
                    final(self)@ == pre && r == Err::<ByteAddress, _>(
                        ExecuteError::InvalidInstructionFormat(0),
                    )
                } else {
                    let f = pre.frames.last();
                    let popped = MachineView {
                        frames: pre.frames.drop_last(),
                        stack: if 0 <= f.stack_base <= pre.stack.len() {
                            pre.stack.take(f.stack_base)
                        } else {
                            pre.stack
                        },
                        ..pre
                    };
                    match f.ret_var {
                        None => final(self)@ == popped && (r matches Ok(a) && a.0 == f.ret_pc),
                        Some(var) => match set_var_step(popped, var, value) {
                            Ok(v2) => final(self)@ == v2 && (r matches Ok(a) && a.0 == f.ret_pc),
                            Err(e) => final(self)@ == popped && r == Err::<ByteAddress, _>(e),
                        },
                    }
                }
            }),
    {
        let f = match self.frames.pop() {
            Some(f) => f,
            None => {
                return Err(ExecuteError::InvalidInstructionFormat(0));
            },
        };
        if f.stack_base <= self.stack.len() {
            self.stack.truncate(f.stack_base);
        }
        proof {
            assert(self@.frames =~= old(self)@.frames.drop_last());
        }
        match f.ret_var {
            None => Ok(ByteAddress(f.ret_pc)),
            Some(var) => match self.set_variable(var, value) {
                Ok(()) => Ok(ByteAddress(f.ret_pc)),
                Err(e) => Err(e),
            },
        }
    }

    /// Applies the outcome of a host save: stories before version 4
    /// branch on it, later ones store it.
    pub fn finish_save(&mut self, saved: bool, addr: &mut ByteAddress) -> (r: Result<
        Option<Action>,
        ExecuteError,
    >)
        requires
            old(self).wf(),
        ensures
            final(self).wf(),
            match r {
                Ok(o) => {
                    if crate::meta::version_number(old(self).mem()) < 4 {
                        branch_step(old(self).mem(), old(addr).0 as int, saved) == Ok::<
                            _,
                            ExecuteError,
                        >((final(addr).0 as int, opt_action_view(o))) && final(self)@ == old(
                            self,
                        )@
                    } else {
                        store_step(old(self)@, old(addr).0 as int, if saved { 1u16 } else { 0u16 })
                            == Ok::<_, ExecuteError>((final(self)@, final(addr).0 as int))
                            && o is None
                    }
                },
                Err(e) => {
                    &&& final(self)@ == old(self)@
                    &&& *final(addr) == *old(addr)
                    &&& if crate::meta::version_number(old(self).mem()) < 4 {
                        branch_step(old(self).mem(), old(addr).0 as int, saved) == Err::<
                            (int, Option<ActionView>),
                            _,
                        >(e)
                    } else {
                        store_step(old(self)@, old(addr).0 as int, if saved { 1u16 } else { 0u16 })
                            == Err::<(MachineView, int), _>(e)
                    }
                },
            },
    {
        let v = self.version().number();
        if v < 4 {
            self.branch(saved, addr)
        } else {
            match self.store(if saved { 1 } else { 0 }, addr) {
                Ok(()) => Ok(None),
                Err(e) => Err(e),
            }
        }
    }

    /// Applies the outcome of a host restore: stories before version 4
    /// branch on it, later ones store it.
    pub fn finish_restore(&mut self, restored: bool, addr: &mut ByteAddress) -> (r: Result<
        Option<Action>,
        ExecuteError,
    >)
        requires
            old(self).wf(),
        ensures
            final(self).wf(),
            match r {
                Ok(o) => {
                    if crate::meta::version_number(old(self).mem()) < 4 {
                        branch_step(old(self).mem(), old(addr).0 as int, restored) == Ok::<
                            _,
                            ExecuteError,
                        >((final(addr).0 as int, opt_action_view(o))) && final(self)@ == old(
                            self,
                        )@
                    } else {
                        store_step(
                            old(self)@,
                            old(addr).0 as int,
                            if restored { 1u16 } else { 0u16 },
                        ) == Ok::<_, ExecuteError>((final(self)@, final(addr).0 as int)) && o
                            is None
                    }
                },
                Err(e) => {
                    &&& final(self)@ == old(self)@
                    &&& *final(addr) == *old(addr)
                    &&& if crate::meta::version_number(old(self).mem()) < 4 {
                        branch_step(old(self).mem(), old(addr).0 as int, restored) == Err::<
                            (int, Option<ActionView>),
                            _,
                        >(e)
                    } else {
                        store_step(
                            old(self)@,
                            old(addr).0 as int,
                            if restored { 1u16 } else { 0u16 },
                        ) == Err::<(MachineView, int), _>(e)
                    }
                },
            },
    {
        let v = self.version().number();
        if v < 4 {
            self.branch(restored, addr)
        } else {
            match self.store(if restored { 1 } else { 0 }, addr) {
                Ok(()) => Ok(None),
                Err(e) => Err(e),
            }
        }
    }
}

/// One decoded operand, before resolution.
#[derive(Debug, Copy, Clone, PartialEq, Eq, Structural)]
pub enum Operand {
    /// A two-octet big-endian constant.
    LargeConstant(u16),
    /// A one-octet constant.
    SmallConstant(u8),
    /// A variable number: stack top, a local, or a global.
    Variable(u8),
    /// No operand; ends the operand list early.
    Omitted,
}

impl Operand {
    /// Resolves this operand to its value: constants stand for
    /// themselves, a variable is read (popping the stack for variable 0),
    /// and an omitted operand yields nothing.
    pub fn resolve(self, z: &mut ZMachine) -> (r: Result<Option<u16>, ExecuteError>)
        requires
            old(z).wf(),
        ensures
            final(z).wf(),
            match self {
                Operand::LargeConstant(c) => r == Ok::<_, ExecuteError>(Some(c)) && final(z)@
                    == old(z)@,
                Operand::SmallConstant(c) => {
                    &&& r == Ok::<_, ExecuteError>(Some(c as u16))
                    &&& final(z)@ == old(z)@
                },
                Operand::Variable(var) => match var_read_step(old(z)@, var) {
                    Ok((v2, value)) => r == Ok::<_, ExecuteError>(Some(value)) && final(z)@ == v2,
                    Err(e) => r == Err::<Option<u16>, _>(e) && final(z)@ == old(z)@,
                },
                Operand::Omitted => {
                    &&& r == Ok::<_, ExecuteError>(None::<u16>)
                    &&& final(z)@ == old(z)@
                },
            },
    {
        match self {
            Operand::LargeConstant(c) => Ok(Some(c)),
            Operand::SmallConstant(c) => Ok(Some(c as u16)),
            Operand::Variable(var) => match z.variable(var) {
                Ok(value) => Ok(Some(value)),
                Err(e) => Err(e),
            },
            Operand::Omitted => Ok(None),
        }
    }
}

/// The form an opcode octet declares: the high two bits, with the
/// extended marker octet on top in version 5 and later.
#[derive(Debug, Copy, Clone, PartialEq, Eq, Structural)]
pub enum OpcodeForm {
    /// Long form: two operands, types in bits 6 and 5.
    Long,
    /// Short form: zero or one operand, type in bits 5 and 4.
    Short,
    /// Extended form: the marker octet 0xBE, then the real opcode.
    Extended,
    /// Variable form: a dedicated operand-types octet follows.
    Variable,
}

/// The operand family an instruction dispatches to.
#[derive(Debug, Copy, Clone, PartialEq, Eq, Structural)]
pub enum OperandsDesc {
    /// No operands.
    Op0,
    /// One operand.
    Op1,
    /// Two operands.
    Op2,
    /// Up to four (or eight) operands, types listed in their own octets.
    Var,
}

/// Classifies the instruction at byte address `a`: its form, operand
/// family, opcode number, and the address just past the opcode header.
pub open spec fn spec_classify(mem: Seq<u8>, a: int) -> Result<
    (OpcodeForm, OperandsDesc, u8, int),
    ExecuteError,
> {
    if a >= mem.len() {
        Err(ExecuteError::BadAddress(a as usize))
    } else {
        let b = mem[a];
        if b == 0xBE && crate::meta::version_number(mem) >= 5 {
            if a + 1 >= mem.len() {
                Err(ExecuteError::BadAddress((a + 1) as usize))
            } else {
                Ok((OpcodeForm::Extended, OperandsDesc::Var, mem[a + 1], a + 2))
            }
        } else if b & 0xC0u8 == 0xC0u8 {
            Ok(
                (
                    OpcodeForm::Variable,
                    if b & 0x20u8 != 0u8 {
                        OperandsDesc::Var
                    } else {
                        OperandsDesc::Op2
                    },
                    b & 0x1Fu8,
                    a + 1,
                ),
            )
        } else if b & 0xC0u8 == 0x80u8 {
            Ok(
                (
                    OpcodeForm::Short,
                    if b & 0x30u8 == 0x30u8 {
                        OperandsDesc::Op0
                    } else {
                        OperandsDesc::Op1
                    },
                    b & 0x0Fu8,
                    a + 1,
                ),
            )
        } else {
            Ok((OpcodeForm::Long, OperandsDesc::Op2, b & 0x1Fu8, a + 1))
        }
    }
}

impl ZMachine {
    /// Classifies the instruction at `addr`: its form, operand family,
    /// opcode number, and the address just past the opcode header (past
    /// the marker and opcode octets for the extended form).
    pub fn decode_instruction(&self, addr: ByteAddress) -> (r: Result<
        (OpcodeForm, OperandsDesc, u8, ByteAddress),
        ExecuteError,
    >)
        requires
            self.wf(),
        ensures
            match r {
                Ok((form, desc, op, a1)) => spec_classify(self.mem(), addr.0 as int) == Ok::<
                    _,
                    ExecuteError,
                >((form, desc, op, a1.0 as int)),
                Err(e) => spec_classify(self.mem(), addr.0 as int) == Err::<
                    (OpcodeForm, OperandsDesc, u8, int),
                    _,
                >(e),
            },
    {
        let n = self.memory.len();
        let a = addr.0;
        let b = match self.try_byte(addr) {
            Some(b) => b,
            None => {
                return Err(ExecuteError::BadAddress(a));
            },
        };
        let v = self.version().number();
        if b == 0xBE && v >= 5 {
            match self.try_byte(ByteAddress(a + 1)) {
                Some(op) => Ok((OpcodeForm::Extended, OperandsDesc::Var, op, ByteAddress(a + 2))),
                None => Err(ExecuteError::BadAddress(a + 1)),
            }
        } else if b & 0xC0 == 0xC0 {
            let desc = if b & 0x20 != 0 {
                OperandsDesc::Var
            } else {
                OperandsDesc::Op2
            };
            Ok((OpcodeForm::Variable, desc, b & 0x1F, ByteAddress(a + 1)))
        } else if b & 0xC0 == 0x80 {
            let desc = if b & 0x30 == 0x30 {
                OperandsDesc::Op0
            } else {
                OperandsDesc::Op1
            };
            Ok((OpcodeForm::Short, desc, b & 0x0F, ByteAddress(a + 1)))
        } else {
            Ok((OpcodeForm::Long, OperandsDesc::Op2, b & 0x1F, ByteAddress(a + 1)))
        }
    }

    /// Decodes and executes the instruction at `addr`, moving `addr` past
    /// everything the instruction consumed (or to the branch target).
    /// This core dispatches the zero- and one-operand families; the two-
    /// and variable-operand families are reported as unsupported, with
    /// the machine unchanged.
    pub fn execute(&mut self, addr: &mut ByteAddress) -> (r: Result<Action, ExecuteError>)
        requires
            old(self).wf(),
        ensures
            final(self).wf(),
            match spec_classify(old(self).mem(), old(addr).0 as int) {
                Err(e) => {
                    &&& final(self)@ == old(self)@
                    &&& *final(addr) == *old(addr)
                    &&& result_view(r) == Err::<ActionView, _>(e)
                },
                Ok((form, desc, op, a1)) => match desc {
                    OperandsDesc::Op0 => crate::vm::op0::op0_post(
                        old(self)@,
                        a1,
                        op,
                        final(self)@,
                        final(addr).0 as int,
                        result_view(r),
                    ),
                    OperandsDesc::Op1 => crate::vm::op1::op1_post(
                        old(self)@,
                        a1,
                        op,
                        (old(self).mem()[old(addr).0 as int] >> 4u8) & 3u8,
                        final(self)@,
                        final(addr).0 as int,
                        result_view(r),
                    ),
                    _ => {
                        &&& final(self)@ == old(self)@
                        &&& *final(addr) == *old(addr)
                        &&& result_view(r) == Err::<ActionView, _>(ExecuteError::Unsupported(op))
                    },
                },
            },
    {
        let (form, desc, op, a1) = match self.decode_instruction(*addr) {
            Ok(d) => d,
            Err(e) => {
                return Err(e);
            },
        };
        match desc {
            OperandsDesc::Op0 => {
                *addr = a1;
                self.execute_op0(addr, op)
            },
            OperandsDesc::Op1 => {
                let b = self.byte(*addr);
                let t = (b >> 4) & 3;
                *addr = a1;
                self.execute_op1(addr, op, t)
            },
            _ => Err(ExecuteError::Unsupported(op)),
        }
    }
}

/// Fetching the operands a variable-form types octet `tb` declares,
/// fields most significant first, from field `i` on: each two-bit field
/// picks a large constant, a small constant, a variable (whose read may
/// pop the stack), or ends the list. Yields the state and address after
/// the operands and the values read, or the first fault.
pub open spec fn var_ops_rec(v: MachineView, a: int, tb: u8, i: int) -> (
    MachineView,
    int,
    Result<Seq<u16>, ExecuteError>,
)
    decreases 4 - i,
{
    if i >= 4 {
        (v, a, Ok(Seq::<u16>::empty()))
    } else {
        let t = (tb >> ((6 - 2 * i) as u8)) & 3u8;
        if t == 3 {
            (v, a, Ok(Seq::<u16>::empty()))
        } else {
            match crate::vm::op1::op1_operand(v, a, t) {
                Err(e) => (v, a, Err(e)),
                Ok((v2, a2, val, _)) => {
                    let (v3, a3, res) = var_ops_rec(v2, a2, tb, i + 1);
                    (
                        v3,
                        a3,
                        match res {
                            Ok(vals) => Ok(seq![val] + vals),
                            Err(e) => Err(e),
                        },
                    )
                },
            }
        }
    }
}

/// Fetching a variable-form instruction's operands, types octet first.
pub open spec fn var_ops_step(v: MachineView, a0: int) -> (
    MachineView,
    int,
    Result<Seq<u16>, ExecuteError>,
) {
    if a0 >= v.mem.len() {
        (v, a0, Err(ExecuteError::BadAddress(a0 as usize)))
    } else {
        var_ops_rec(v, a0 + 1, v.mem[a0], 0)
    }
}

impl ZMachine {
    /// Reads a variable-form instruction's operand-types octet at `addr`
    /// and the operands it declares, resolving each; an omitted field
    /// ends the list early. `addr` moves past what was read.
    pub fn decode_var_operands(&mut self, addr: &mut ByteAddress) -> (r: Result<
        CallArgs,
        ExecuteError,
    >)
        requires
            old(self).wf(),
        ensures
            final(self).wf(),
            ({
                let (v3, a3, res) = var_ops_step(old(self)@, old(addr).0 as int);
                &&& final(self)@ == v3
                &&& final(addr).0 == a3
                &&& match (r, res) {
                    (Ok(args), Ok(vals)) => call_args_of(args) == vals,
                    (Err(e), Err(e2)) => e == e2,
                    _ => false,
                }
            }),
    {
        let ghost pre = self@;
        let n = self.memory.len();
        let a0 = addr.0;
        let tb = match self.try_byte(ByteAddress(a0)) {
            Some(b) => b,
            None => {
                return Err(ExecuteError::BadAddress(a0));
            },
        };
        let mut a: usize = a0 + 1;
        let mut args = call_args_new();
        let mut i: usize = 0;
        let mut done = false;
        while i < 4 && !done
            invariant
                self.wf(),
                pre == old(self)@,
                a0 == old(addr).0,
                tb == pre.mem[a0 as int],
                a0 < pre.mem.len(),
                i <= 4,
                call_args_of(args).len() == i,
                done ==> i < 4 && (tb >> ((6 - 2 * (i as int)) as u8)) & 3u8 == 3,
                var_ops_step(pre, a0 as int) == ({
                    let (v3, a3, res) = var_ops_rec(self@, a as int, tb, i as int);
                    (
                        v3,
                        a3,
                        match res {
                            Ok(vals) => Ok::<Seq<u16>, ExecuteError>(call_args_of(args) + vals),
                            Err(e) => Err::<Seq<u16>, ExecuteError>(e),
                        },
                    )
                }),
            decreases 4 - i, if done { 0int } else { 1int },
        {
            let sh: u8 = (6 - 2 * i) as u8;
            let t = (tb >> sh) & 3;
            if t == 3 {
                done = true;
            } else {
                let n2 = self.memory.len();
                let val: u16;
                let ghost s_pre = self@;
                let ghost a_pre = a as int;
                if t == 0 {
                    if a >= n2 || a + 1 >= n2 {
                        proof {
                            lemma_var_ops_fault(self@, a as int, tb, i as int, t,
                                ExecuteError::BadAddress(a));
                        }
                        *addr = ByteAddress(a);
                        return Err(ExecuteError::BadAddress(a));
                    }
                    val = self.word(ByteAddress(a));
                    a = a + 2;
                } else if t == 1 {
                    if a >= n2 {
                        proof {
                            lemma_var_ops_fault(self@, a as int, tb, i as int, t,
                                ExecuteError::BadAddress(a));
                        }
                        *addr = ByteAddress(a);
                        return Err(ExecuteError::BadAddress(a));
                    }
                    val = self.memory[a] as u16;
                    a = a + 1;
                } else {
                    proof {
                        assert(t <= 3) by (bit_vector)
                            requires
                                t == (tb >> sh) & 3u8,
                        ;
                    }
                    if a >= n2 {
                        proof {
                            lemma_var_ops_fault(self@, a as int, tb, i as int, t,
                                ExecuteError::BadAddress(a));
                        }
                        *addr = ByteAddress(a);
                        return Err(ExecuteError::BadAddress(a));
                    }
                    let vn = self.memory[a];
                    val = match self.variable(vn) {
                        Ok(v) => v,
                        Err(e) => {
                            proof {
                                lemma_var_ops_fault(self@, a as int, tb, i as int, t, e);
                            }
                            *addr = ByteAddress(a);
                            return Err(e);
                        },
                    };
                    a = a + 1;
                }
                proof {
                    let vn_spec = match crate::vm::op1::op1_operand(s_pre, a_pre, t) {
                        Ok((_, _, _, vns)) => vns,
                        Err(_) => None,
                    };
                    lemma_var_ops_cons(s_pre, a_pre, tb, i as int, t, self@, a as int, val,
                        vn_spec);
                }
                let ghost args0 = call_args_of(args);
                call_args_push(&mut args, val);
                proof {
                    assert(call_args_of(args) =~= args0.push(val));
                    let (v3x, a3x, resx) = var_ops_rec(self@, a as int, tb, i + 1 as int);
                    if resx is Ok {
                        let vals = resx->Ok_0;
                        assert(args0 + (seq![val] + vals) =~= call_args_of(args) + vals);
                    }
                }
                i = i + 1;
            }
        }
        *addr = ByteAddress(a);
        proof {
            lemma_var_ops_done(self@, a as int, tb, i as int);
            assert(call_args_of(args) + Seq::<u16>::empty() =~= call_args_of(args));
        }
        Ok(args)
    }

}

/// A faulting operand fetch ends the variable-form operand list with
/// that fault.
proof fn lemma_var_ops_fault(v: MachineView, a: int, tb: u8, i: int, t: u8, e: ExecuteError)
    requires
        0 <= i < 4,
        t == (tb >> ((6 - 2 * i) as u8)) & 3u8,
        t != 3,
        crate::vm::op1::op1_operand(v, a, t) == Err::<
            (MachineView, int, u16, Option<u8>),
            ExecuteError,
        >(e),
    ensures
        var_ops_rec(v, a, tb, i) == (v, a, Err::<Seq<u16>, ExecuteError>(e)),
{
}

/// An exhausted or omitted field ends the variable-form operand list.
proof fn lemma_var_ops_done(v: MachineView, a: int, tb: u8, i: int)
    requires
        0 <= i <= 4,
        i == 4 || (tb >> ((6 - 2 * i) as u8)) & 3u8 == 3,
    ensures
        var_ops_rec(v, a, tb, i) == (v, a, Ok::<Seq<u16>, ExecuteError>(Seq::<u16>::empty())),
{
}

/// One fetched operand prepends its value to the rest of the list.
proof fn lemma_var_ops_cons(
    v: MachineView,
    a: int,
    tb: u8,
    i: int,
    t: u8,
    v2: MachineView,
    a2: int,
    val: u16,
    vn: Option<u8>,
)
    requires
        0 <= i < 4,
        t == (tb >> ((6 - 2 * i) as u8)) & 3u8,
        t != 3,
        crate::vm::op1::op1_operand(v, a, t) == Ok::<
            (MachineView, int, u16, Option<u8>),
            ExecuteError,
        >((v2, a2, val, vn)),
    ensures
        var_ops_rec(v, a, tb, i) == ({
            let (v3, a3, res) = var_ops_rec(v2, a2, tb, i + 1);
            (
                v3,
                a3,
                match res {
                    Ok(vals) => Ok::<Seq<u16>, ExecuteError>(seq![val] + vals),
                    Err(e) => Err::<Seq<u16>, ExecuteError>(e),
                },
            )
        }),
{
}

} // verus!
