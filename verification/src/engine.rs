//! The execution engine: token dispatch, the loop state machine, and the run
//! loop.
//!
//! The engine owns the tape, the full instruction sequence, a cursor into it,
//! a scan direction, and an armed flag.  While the flag is down only the
//! loop-open token has an effect; this is how the backward scan for the
//! nearest loop opener is realized: the loop-repeat token drops the flag and
//! reverses the direction, and the scan re-reads tokens without re-running
//! their effects until it revisits a loop opener.
//!
//! The behavior of a run is pinned down by a small-step model over
//! [`EngineModel`]: [`EngineModel::dispatch_post`] and
//! [`EngineModel::iter_post`] say what one instruction and one full loop
//! iteration do to the state, and the run loop is proved to follow exactly
//! that model until it halts, needs the caller, or faults.

use vstd::prelude::*;

use crate::fault::EngineFault;
use crate::fault::InvalidInstruction;
use crate::fault::RunEvent;
use crate::fault::StepEffect;
use crate::tape::decrement_current_memory_address;
use crate::tape::increment_current_memory_address;
use crate::tape::move_pointer_back_one;
use crate::tape::move_pointer_forward_one;
use crate::tape::set_current_memory_to_zero;
use crate::tape::set_memory_value_from_integer;
use crate::tape::wrap_dec;
use crate::tape::wrap_inc;
use crate::text::decimal_seq;
use crate::text::decimal_string;
use crate::text::fold_char;
use crate::text::get_utf8_from_integer;
use crate::text::str_eq_check;

verus! {

/// The direction the cursor moves in after each dispatched token.
#[derive(Clone, Copy, Debug, PartialEq, Eq, Structural)]
pub enum IncrementMode {
    Forward,
    Backward,
}

/// Advances the cursor by one position in its current direction.
pub struct CowIncrementer {
    pub mode: IncrementMode,
}

impl CowIncrementer {
    /// Move the cursor one step in the current direction.
    pub fn next(&mut self, i: &mut usize)
        requires
            old(self).mode is Forward ==> *old(i) < usize::MAX,
            old(self).mode is Backward ==> *old(i) > 0,
        ensures
            final(self).mode == old(self).mode,
            old(self).mode is Forward ==> *final(i) == *old(i) + 1,
            old(self).mode is Backward ==> *final(i) == *old(i) - 1,
    {
        match self.mode {
            IncrementMode::Forward => {
                *i = *i + 1;
            },
            IncrementMode::Backward => {
                *i = *i - 1;
            },
        }
    }
}

/// How one dispatched token is classified: silent, an output line, one of
/// the two input requests, or one of the two faults.
#[derive(Clone, Copy, Debug, PartialEq, Eq, Structural)]
pub enum StepKind {
    /// The token only changed the engine state.
    Quiet,
    /// The token produced one line of output.
    Emit,
    /// The token needs one character from the input device.
    NeedChar,
    /// The token needs one whole number from the input device.
    NeedByte,
    /// The token is none of the twelve instruction codes.
    BadToken,
    /// The cursor would scan backward past the start of the sequence.
    LoopFault,
}

/// The mathematical state of the engine: the tape as a sequence of bytes,
/// the pointer, the scan direction, the instruction tokens as character
/// sequences, the cursor, and the armed flag.
#[verifier::ext_equal]
pub ghost struct EngineModel {
    pub memory: Seq<u8>,
    pub pointer: nat,
    pub mode: IncrementMode,
    pub instructions: Seq<Seq<char>>,
    pub i: int,
    pub armed: bool,
}

impl EngineModel {
    /// The tape is never empty, the pointer stays inside it, and the cursor
    /// never goes below the start.
    pub open spec fn wf(self) -> bool {
        &&& self.memory.len() > 0
        &&& self.pointer < self.memory.len()
        &&& 0 <= self.i
    }

    /// Whether the cursor is inside the instruction sequence.
    pub open spec fn in_bounds(self) -> bool {
        0 <= self.i < self.instructions.len()
    }

    /// The token under the cursor.
    pub open spec fn tok(self) -> Seq<char>
        recommends
            self.in_bounds(),
    {
        self.instructions[self.i]
    }

    /// The value of the cell under the pointer.
    pub open spec fn cur(self) -> u8
        recommends
            self.pointer < self.memory.len(),
    {
        self.memory[self.pointer as int]
    }

    /// The state with the cell under the pointer overwritten.
    pub open spec fn with_cur(self, v: u8) -> Self {
        Self { memory: self.memory.update(self.pointer as int, v), ..self }
    }

    /// The state after the pointer moved one cell to the right, growing the
    /// tape by one zero cell when it stood on the last one.
    pub open spec fn moved_forward(self) -> Self {
        let grown = if self.pointer == self.memory.len() - 1 {
            Self { memory: self.memory.push(0u8), ..self }
        } else {
            self
        };
        Self { pointer: self.pointer + 1, ..grown }
    }

    /// The state after the pointer moved one cell to the left, clamped at 0.
    pub open spec fn moved_backward(self) -> Self {
        if self.pointer == 0 {
            self
        } else {
            Self { pointer: (self.pointer - 1) as nat, ..self }
        }
    }

    /// The state after the token under the cursor is dispatched, before the
    /// cursor advances.  On a fault the state is unchanged.
    pub open spec fn dispatch_post(self) -> Self
        recommends
            self.wf(),
            self.in_bounds(),
    {
        if !self.armed {
            if self.tok() == "MOO"@ {
                Self { armed: true, mode: IncrementMode::Forward, ..self }
            } else {
                self
            }
        } else {
            let t = self.tok();
            if t == "moo"@ {
                if self.i == 0 {
                    self
                } else {
                    Self { i: self.i - 1, mode: IncrementMode::Backward, armed: false, ..self }
                }
            } else if t == "mOo"@ {
                self.moved_backward()
            } else if t == "moO"@ {
                self.moved_forward()
            } else if t == "mOO"@ {
                self
            } else if t == "Moo"@ {
                self
            } else if t == "MOo"@ {
                self.with_cur(wrap_dec(self.cur()))
            } else if t == "MoO"@ {
                self.with_cur(wrap_inc(self.cur()))
            } else if t == "oom"@ {
                self
            } else if t == "MOO"@ {
                self
            } else if t == "OOO"@ {
                self.with_cur(0u8)
            } else if t == "MMM"@ {
                self
            } else if t == "OOM"@ {
                self
            } else {
                self
            }
        }
    }

    /// How the token under the cursor is classified when dispatched.
    pub open spec fn dispatch_kind(self) -> StepKind
        recommends
            self.wf(),
            self.in_bounds(),
    {
        if !self.armed {
            StepKind::Quiet
        } else {
            let t = self.tok();
            if t == "moo"@ {
                if self.i == 0 {
                    StepKind::LoopFault
                } else {
                    StepKind::Quiet
                }
            } else if t == "mOo"@ {
                StepKind::Quiet
            } else if t == "moO"@ {
                StepKind::Quiet
            } else if t == "mOO"@ {
                StepKind::Quiet
            } else if t == "Moo"@ {
                if self.cur() == 0 {
                    StepKind::NeedChar
                } else {
                    StepKind::Emit
                }
            } else if t == "MOo"@ {
                StepKind::Quiet
            } else if t == "MoO"@ {
                StepKind::Quiet
            } else if t == "oom"@ {
                StepKind::NeedByte
            } else if t == "MOO"@ {
                StepKind::Quiet
            } else if t == "OOO"@ {
                StepKind::Quiet
            } else if t == "MMM"@ {
                StepKind::Quiet
            } else if t == "OOM"@ {
                StepKind::Emit
            } else {
                StepKind::BadToken
            }
        }
    }

    /// The line of output produced by the token under the cursor, when its
    /// kind is [`StepKind::Emit`]: the print instruction writes the decimal
    /// text of the current cell, the echo path of the input-or-echo
    /// instruction writes the character the cell folds to.
    pub open spec fn emit_line(self) -> Seq<char>
        recommends
            self.wf(),
            self.in_bounds(),
            self.dispatch_kind() == StepKind::Emit,
    {
        if self.tok() == "OOM"@ {
            decimal_seq(self.cur() as int)
        } else {
            seq![fold_char(self.cur())]
        }
    }

    /// How one full loop iteration — dispatch, then cursor advance — is
    /// classified.  A backward advance standing at cursor 0 is the
    /// unterminated-loop fault.
    pub open spec fn iter_kind(self) -> StepKind
        recommends
            self.wf(),
            self.in_bounds(),
    {
        let k = self.dispatch_kind();
        if k == StepKind::BadToken || k == StepKind::LoopFault {
            k
        } else {
            let s = self.dispatch_post();
            if s.mode is Backward && s.i == 0 {
                StepKind::LoopFault
            } else {
                k
            }
        }
    }

    /// The state after one full loop iteration: dispatch, then one cursor
    /// step in the direction the dispatch left behind.
    pub open spec fn iter_post(self) -> Self
        recommends
            self.wf(),
            self.in_bounds(),
            self.iter_kind() != StepKind::BadToken,
            self.iter_kind() != StepKind::LoopFault,
    {
        let s = self.dispatch_post();
        if s.mode is Backward {
            Self { i: s.i - 1, ..s }
        } else {
            Self { i: s.i + 1, ..s }
        }
    }
}

/// The state after `n` full loop iterations.
pub open spec fn iters(s: EngineModel, n: nat) -> EngineModel
    decreases n,
{
    if n == 0 {
        s
    } else {
        iters(s.iter_post(), (n - 1) as nat)
    }
}

/// Whether the first `n` loop iterations from `s` all stay inside the
/// instruction sequence and are silent: no output, no input request, no
/// fault.
pub open spec fn quiet_until(s: EngineModel, n: nat) -> bool
    decreases n,
{
    if n == 0 {
        true
    } else {
        &&& s.in_bounds()
        &&& s.iter_kind() == StepKind::Quiet
        &&& quiet_until(s.iter_post(), (n - 1) as nat)
    }
}

/// The interpreter: the tape and its pointer, the cursor mover, the full
/// instruction sequence, the cursor, and the armed flag that gates whether
/// instructions execute or are skipped while scanning for a loop opener.
pub struct InstructionInterpreter {
    pub memory: Vec<u8>,
    pub pointer: usize,
    pub incrementer: CowIncrementer,
    pub instructions: Vec<String>,
    pub i: usize,
    pub execute_instructions: bool,
}

impl View for InstructionInterpreter {
    type V = EngineModel;

    open spec fn view(&self) -> EngineModel {
        EngineModel {
            memory: self.memory@,
            pointer: self.pointer as nat,
            mode: self.incrementer.mode,
            instructions: self.instructions.deep_view(),
            i: self.i as int,
            armed: self.execute_instructions,
        }
    }
}

impl InstructionInterpreter {
    /// The tape is never empty and the pointer stays inside it.
    pub open spec fn wf(self) -> bool {
        self@.wf()
    }

    /// A fresh interpreter for the given program: one zero cell, the pointer
    /// on it, the cursor at the first token, armed, moving forward.
    pub fn new(instructions: Vec<String>) -> (r: Self)
        ensures
            r.wf(),
            r@.memory == seq![0u8],
            r@.pointer == 0,
            r@.mode is Forward,
            r@.instructions == instructions.deep_view(),
            r@.i == 0,
            r@.armed,
    {
        let mut memory: Vec<u8> = Vec::new();
        memory.push(0);
        proof {
            assert(memory@ =~= seq![0u8]);
        }
        InstructionInterpreter {
            memory,
            pointer: 0,
            incrementer: CowIncrementer { mode: IncrementMode::Forward },
            instructions,
            i: 0,
            execute_instructions: true,
        }
    }

    /// Set the cell under the pointer to zero.
    pub fn set_current_memory_to_zero(&mut self)
        requires
            old(self).wf(),
        ensures
            final(self)@ =~= old(self)@.with_cur(0u8),
    {
        set_current_memory_to_zero(&mut self.memory, &mut self.pointer);
    }

    /// The decimal text of the cell under the pointer: the line that the
    /// print instruction emits.
    pub fn get_current_memory_as_integer(&mut self) -> (s: String)
        requires
            old(self).wf(),
        ensures
            *final(self) == *old(self),
            s@ == decimal_seq(old(self)@.cur() as int),
    {
        decimal_string(self.memory[self.pointer])
    }

    /// Move the pointer one cell to the right, growing the tape by one zero
    /// cell when the pointer stood on the last one.
    pub fn move_pointer_forward_one(&mut self)
        requires
            old(self).wf(),
        ensures
            final(self)@ =~= old(self)@.moved_forward(),
            final(self).wf(),
    {
        move_pointer_forward_one(&mut self.memory, &mut self.pointer);
    }

    /// Move the pointer one cell to the left; at cell 0 it stays at 0.
    pub fn move_pointer_back_one(&mut self)
        requires
            old(self).wf(),
        ensures
            final(self)@ =~= old(self)@.moved_backward(),
            final(self).wf(),
    {
        move_pointer_back_one(&mut self.pointer);
    }

    /// Increment the cell under the pointer, wrapping 255 around to 0.
    pub fn increment_current_memory_address(&mut self)
        requires
            old(self).wf(),
        ensures
            final(self)@ =~= old(self)@.with_cur(wrap_inc(old(self)@.cur())),
    {
        increment_current_memory_address(&mut self.memory, &mut self.pointer);
    }

    /// Decrement the cell under the pointer, wrapping 0 around to 255.
    pub fn decrement_current_memory_address(&mut self)
        requires
            old(self).wf(),
        ensures
            final(self)@ =~= old(self)@.with_cur(wrap_dec(old(self)@.cur())),
    {
        decrement_current_memory_address(&mut self.memory, &mut self.pointer);
    }

    /// Overwrite the cell under the pointer with the given value: how a byte
    /// read from the input device is stored.
    pub fn set_memory_value_from_integer(&mut self, integer: u8)
        requires
            old(self).wf(),
        ensures
            final(self)@ =~= old(self)@.with_cur(integer),
    {
        set_memory_value_from_integer(integer, &mut self.memory, &mut self.pointer);
    }

    /// The input-or-echo decision: a zero cell asks the caller for one
    /// character, a non-zero cell is echoed as the character it folds to.
    /// The state is unchanged either way; a character the caller reads is
    /// stored afterwards with [`Self::set_memory_value_from_integer`].
    pub fn input_or_read_ascii_value(&mut self) -> (r: StepEffect)
        requires
            old(self).wf(),
        ensures
            *final(self) == *old(self),
            old(self)@.cur() == 0 ==> r is WantChar,
            old(self)@.cur() != 0 ==> (r matches StepEffect::Emit(line) && line@ == seq![
                fold_char(old(self)@.cur()),
            ]),
    {
        let v: u8 = self.memory[self.pointer];
        if v == 0 {
            StepEffect::WantChar
        } else {
            StepEffect::Emit(get_utf8_from_integer(v))
        }
    }

    /// Dispatch the token under the cursor, without advancing the cursor.
    ///
    /// The new state is exactly [`EngineModel::dispatch_post`] of the old
    /// one, and the result follows [`EngineModel::dispatch_kind`]: a silent
    /// token ran, an output token hands back its line, an input token asks
    /// for its value, an unrecognized token is the invalid-instruction fault
    /// carrying its text, and a loop-repeat token standing at cursor 0 is
    /// the unterminated-loop fault.
    pub fn instruction_interpreter(&mut self) -> (r: Result<StepEffect, EngineFault>)
        requires
            old(self).wf(),
            old(self)@.in_bounds(),
        ensures
            final(self).wf(),
            final(self)@ =~= old(self)@.dispatch_post(),
            match old(self)@.dispatch_kind() {
                StepKind::Quiet => r matches Ok(StepEffect::Ran),
                StepKind::Emit => (r matches Ok(StepEffect::Emit(line)) && line@ == old(
                    self,
                )@.emit_line()),
                StepKind::NeedChar => r matches Ok(StepEffect::WantChar),
                StepKind::NeedByte => r matches Ok(StepEffect::WantByte),
                StepKind::BadToken => (r matches Err(EngineFault::Invalid(inv)) && inv.token@
                    == old(self)@.tok()),
                StepKind::LoopFault => r matches Err(EngineFault::UnterminatedLoop),
            },
    {
        let instruction: String = self.instructions[self.i].clone();
        proof {
            assert(instruction@ == old(self)@.tok());
        }
        if !self.execute_instructions {
            if str_eq_check(instruction.as_str(), "MOO") {
                self.execute_instructions = true;
                self.incrementer.mode = IncrementMode::Forward;
            }
            Ok(StepEffect::Ran)
        } else if str_eq_check(instruction.as_str(), "moo") {
            // A loop-repeat token: scan in reverse for the loop opener,
            // skipping the instruction immediately before the repeat token.
            if self.i == 0 {
                Err(EngineFault::UnterminatedLoop)
            } else {
                self.i = self.i - 1;
                self.incrementer.mode = IncrementMode::Backward;
                self.execute_instructions = false;
                Ok(StepEffect::Ran)
            }
        } else if str_eq_check(instruction.as_str(), "mOo") {
            self.move_pointer_back_one();
            Ok(StepEffect::Ran)
        } else if str_eq_check(instruction.as_str(), "moO") {
            self.move_pointer_forward_one();
            Ok(StepEffect::Ran)
        } else if str_eq_check(instruction.as_str(), "mOO") {
            moo_temp();
            Ok(StepEffect::Ran)
        } else if str_eq_check(instruction.as_str(), "Moo") {
            proof {
                lemma_token_chars();
            }
            let eff = self.input_or_read_ascii_value();
            Ok(eff)
        } else if str_eq_check(instruction.as_str(), "MOo") {
            self.decrement_current_memory_address();
            Ok(StepEffect::Ran)
        } else if str_eq_check(instruction.as_str(), "MoO") {
            self.increment_current_memory_address();
            Ok(StepEffect::Ran)
        } else if str_eq_check(instruction.as_str(), "oom") {
            Ok(StepEffect::WantByte)
        } else if str_eq_check(instruction.as_str(), "MOO") {
            moo_temp();
            Ok(StepEffect::Ran)
        } else if str_eq_check(instruction.as_str(), "OOO") {
            self.set_current_memory_to_zero();
            Ok(StepEffect::Ran)
        } else if str_eq_check(instruction.as_str(), "MMM") {
            moo_temp();
            Ok(StepEffect::Ran)
        } else if str_eq_check(instruction.as_str(), "OOM") {
            let line = self.get_current_memory_as_integer();
            Ok(StepEffect::Emit(line))
        } else {
            Err(EngineFault::Invalid(InvalidInstruction { token: instruction }))
        }
    }
}

/// The placeholder effect of the reserved tokens: they consume a step and do
/// nothing else.
pub fn moo_temp() -> (r: u32)
    ensures
        r == 1,
{
    1u32
}

/// The twelve instruction tokens, character by character.  Knowing the
/// characters lets the prover tell any two tokens apart.
pub proof fn lemma_token_chars()
    ensures
        "moo"@.len() == 3 && "moo"@[0] == 'm' && "moo"@[1] == 'o' && "moo"@[2] == 'o',
        "mOo"@.len() == 3 && "mOo"@[0] == 'm' && "mOo"@[1] == 'O' && "mOo"@[2] == 'o',
        "moO"@.len() == 3 && "moO"@[0] == 'm' && "moO"@[1] == 'o' && "moO"@[2] == 'O',
        "mOO"@.len() == 3 && "mOO"@[0] == 'm' && "mOO"@[1] == 'O' && "mOO"@[2] == 'O',
        "Moo"@.len() == 3 && "Moo"@[0] == 'M' && "Moo"@[1] == 'o' && "Moo"@[2] == 'o',
        "MOo"@.len() == 3 && "MOo"@[0] == 'M' && "MOo"@[1] == 'O' && "MOo"@[2] == 'o',
        "MoO"@.len() == 3 && "MoO"@[0] == 'M' && "MoO"@[1] == 'o' && "MoO"@[2] == 'O',
        "oom"@.len() == 3 && "oom"@[0] == 'o' && "oom"@[1] == 'o' && "oom"@[2] == 'm',
        "MOO"@.len() == 3 && "MOO"@[0] == 'M' && "MOO"@[1] == 'O' && "MOO"@[2] == 'O',
        "OOO"@.len() == 3 && "OOO"@[0] == 'O' && "OOO"@[1] == 'O' && "OOO"@[2] == 'O',
        "MMM"@.len() == 3 && "MMM"@[0] == 'M' && "MMM"@[1] == 'M' && "MMM"@[2] == 'M',
        "OOM"@.len() == 3 && "OOM"@[0] == 'O' && "OOM"@[1] == 'O' && "OOM"@[2] == 'M',
{
    reveal_strlit("moo");
    reveal_strlit("mOo");
    reveal_strlit("moO");
    reveal_strlit("mOO");
    reveal_strlit("Moo");
    reveal_strlit("MOo");
    reveal_strlit("MoO");
    reveal_strlit("oom");
    reveal_strlit("MOO");
    reveal_strlit("OOO");
    reveal_strlit("MMM");
    reveal_strlit("OOM");
}

/// Dispatch a single token against a bare tape, without any loop state: the
/// loop markers and the reserved tokens consume the step and do nothing.
///
/// The contract is the dispatch table itself, one clause per token; any
/// other token is the invalid-instruction fault carrying its text.
pub fn instruction_interpreter(instruction: &str, memory: &mut Vec<u8>, pointer: &mut usize) -> (r:
    Result<StepEffect, InvalidInstruction>)
    requires
        *old(pointer) < old(memory).len(),
    ensures
        *final(pointer) < final(memory).len(),
        (instruction@ == "moo"@ || instruction@ == "mOO"@ || instruction@ == "MOO"@ || instruction@
            == "MMM"@) ==> (final(memory)@ == old(memory)@ && *final(pointer) == *old(pointer)
            && (r matches Ok(StepEffect::Ran))),
        instruction@ == "mOo"@ ==> (final(memory)@ == old(memory)@
            && (*old(pointer) == 0 ==> *final(pointer) == 0)
            && (*old(pointer) > 0 ==> *final(pointer) == *old(pointer) - 1)
            && (r matches Ok(StepEffect::Ran))),
        instruction@ == "moO"@ ==> ((*old(pointer) == old(memory).len() - 1 ==> final(memory)@
            == old(memory)@.push(0u8))
            && (*old(pointer) < old(memory).len() - 1 ==> final(memory)@ == old(memory)@)
            && *final(pointer) == *old(pointer) + 1
            && (r matches Ok(StepEffect::Ran))),
        instruction@ == "Moo"@ ==> (final(memory)@ == old(memory)@
            && *final(pointer) == *old(pointer)
            && (old(memory)@[*old(pointer) as int] == 0 ==> r matches Ok(StepEffect::WantChar))
            && (old(memory)@[*old(pointer) as int] != 0 ==> (r matches Ok(StepEffect::Emit(line))
            && line@ == seq![fold_char(old(memory)@[*old(pointer) as int])]))),
        instruction@ == "MOo"@ ==> (final(memory)@
            == old(memory)@.update(*old(pointer) as int, wrap_dec(old(memory)@[*old(pointer) as int]))
            && *final(pointer) == *old(pointer)
            && (r matches Ok(StepEffect::Ran))),
        instruction@ == "MoO"@ ==> (final(memory)@
            == old(memory)@.update(*old(pointer) as int, wrap_inc(old(memory)@[*old(pointer) as int]))
            && *final(pointer) == *old(pointer)
            && (r matches Ok(StepEffect::Ran))),
        instruction@ == "oom"@ ==> (final(memory)@ == old(memory)@
            && *final(pointer) == *old(pointer)
            && (r matches Ok(StepEffect::WantByte))),
        instruction@ == "OOO"@ ==> (final(memory)@
            == old(memory)@.update(*old(pointer) as int, 0u8)
            && *final(pointer) == *old(pointer)
            && (r matches Ok(StepEffect::Ran))),
        instruction@ == "OOM"@ ==> (final(memory)@ == old(memory)@
            && *final(pointer) == *old(pointer)
            && (r matches Ok(StepEffect::Emit(line))
            && line@ == decimal_seq(old(memory)@[*old(pointer) as int] as int))),
        !(instruction@ == "moo"@ || instruction@ == "mOo"@ || instruction@ == "moO"@ || instruction@
            == "mOO"@ || instruction@ == "Moo"@ || instruction@ == "MOo"@ || instruction@ == "MoO"@
            || instruction@ == "oom"@ || instruction@ == "MOO"@ || instruction@ == "OOO"@
            || instruction@ == "MMM"@ || instruction@ == "OOM"@) ==> (final(memory)@ == old(memory)@
            && *final(pointer) == *old(pointer)
            && (r matches Err(inv) && inv.token@ == instruction@)),
{
    proof {
        lemma_token_chars();
    }
    if str_eq_check(instruction, "moo") {
        moo_temp();
        Ok(StepEffect::Ran)
    } else if str_eq_check(instruction, "mOo") {
        move_pointer_back_one(pointer);
        Ok(StepEffect::Ran)
    } else if str_eq_check(instruction, "moO") {
        move_pointer_forward_one(memory, pointer);
        Ok(StepEffect::Ran)
    } else if str_eq_check(instruction, "mOO") {
        moo_temp();
        Ok(StepEffect::Ran)
    } else if str_eq_check(instruction, "Moo") {
        let v: u8 = memory[*pointer];
        if v == 0 {
            Ok(StepEffect::WantChar)
        } else {
            Ok(StepEffect::Emit(get_utf8_from_integer(v)))
        }
    } else if str_eq_check(instruction, "MOo") {
        decrement_current_memory_address(memory, pointer);
        Ok(StepEffect::Ran)
    } else if str_eq_check(instruction, "MoO") {
        increment_current_memory_address(memory, pointer);
        Ok(StepEffect::Ran)
    } else if str_eq_check(instruction, "oom") {
        Ok(StepEffect::WantByte)
    } else if str_eq_check(instruction, "MOO") {
        moo_temp();
        Ok(StepEffect::Ran)
    } else if str_eq_check(instruction, "OOO") {
        set_current_memory_to_zero(memory, pointer);
        Ok(StepEffect::Ran)
    } else if str_eq_check(instruction, "MMM") {
        moo_temp();
        Ok(StepEffect::Ran)
    } else if str_eq_check(instruction, "OOM") {
        let line = decimal_string(memory[*pointer]);
        Ok(StepEffect::Emit(line))
    } else {
        Err(InvalidInstruction { token: instruction.to_owned() })
    }
}

/// Appending one iteration: the state after `n + 1` iterations is one
/// iteration past the state after `n`.
pub proof fn lemma_iters_snoc(s: EngineModel, n: nat)
    ensures
        iters(s, n + 1) == iters(s, n).iter_post(),
    decreases n,
{
    if n == 0 {
        assert(iters(s, 1) == iters(s.iter_post(), 0));
        assert(iters(s.iter_post(), 0) == s.iter_post());
        assert(iters(s, 0) == s);
    } else {
        lemma_iters_snoc(s.iter_post(), (n - 1) as nat);
        assert(iters(s, n + 1) == iters(s.iter_post(), n));
        assert(iters(s, n) == iters(s.iter_post(), (n - 1) as nat));
    }
}

/// A silent prefix stays silent when one more silent in-bounds iteration
/// follows it.
pub proof fn lemma_quiet_until_snoc(s: EngineModel, n: nat)
    requires
        quiet_until(s, n),
        iters(s, n).in_bounds(),
        iters(s, n).iter_kind() == StepKind::Quiet,
    ensures
        quiet_until(s, n + 1),
    decreases n,
{
    if n == 0 {
        assert(iters(s, 0) == s);
        assert(quiet_until(s, 1) == (s.in_bounds() && s.iter_kind() == StepKind::Quiet
            && quiet_until(s.iter_post(), 0)));
        assert(quiet_until(s.iter_post(), 0));
    } else {
        assert(iters(s, n) == iters(s.iter_post(), (n - 1) as nat));
        lemma_quiet_until_snoc(s.iter_post(), (n - 1) as nat);
        assert(quiet_until(s, n + 1) == (s.in_bounds() && s.iter_kind() == StepKind::Quiet
            && quiet_until(s.iter_post(), n)));
    }
}

/// What `r` says about a run that started at `pre` and stopped with the
/// engine in state `post`, after exactly `n` silent iterations.
pub open spec fn run_event_at(
    pre: EngineModel,
    n: nat,
    post: EngineModel,
    r: Result<RunEvent, EngineFault>,
) -> bool {
    let s = iters(pre, n);
    match r {
        Ok(ev) => match ev {
            RunEvent::Halted => !s.in_bounds() && post == s,
            RunEvent::Running => s.in_bounds() && post == s,
            RunEvent::Emit(line) => {
                &&& s.in_bounds()
                &&& s.iter_kind() == StepKind::Emit
                &&& line@ == s.emit_line()
                &&& post == s.iter_post()
            },
            RunEvent::WantChar => {
                &&& s.in_bounds()
                &&& s.iter_kind() == StepKind::NeedChar
                &&& post == s.iter_post()
            },
            RunEvent::WantByte => {
                &&& s.in_bounds()
                &&& s.iter_kind() == StepKind::NeedByte
                &&& post == s.iter_post()
            },
        },
        Err(f) => {
            &&& s.in_bounds()
            &&& post == s.dispatch_post()
            &&& match f {
                EngineFault::Invalid(inv) => s.dispatch_kind() == StepKind::BadToken
                    && inv.token@ == s.tok(),
                EngineFault::UnterminatedLoop => s.iter_kind() == StepKind::LoopFault,
            }
        },
    }
}

/// The contract of the run loop: some number `n` of silent iterations within
/// the step budget was run, and the outcome `r` describes exactly the first
/// non-silent event at iteration `n` — the natural end of the program, an
/// output line, one of the two input requests, one of the two faults, or the
/// budget running out with the program still going.
pub open spec fn run_outcome(
    pre: EngineModel,
    post: EngineModel,
    fuel: nat,
    r: Result<RunEvent, EngineFault>,
) -> bool {
    exists|n: nat|
        {
            &&& #[trigger] quiet_until(pre, n)
            &&& n <= fuel
            &&& run_event_at(pre, n, post, r)
            &&& (r matches Ok(RunEvent::Running) ==> n == fuel)
        }
}

impl InstructionInterpreter {
    /// The run loop: dispatch the token under the cursor, advance the cursor
    /// by the current direction, and repeat, until the cursor leaves the
    /// sequence at the high end, the caller is needed, a fault occurs, or the
    /// given number of iterations has been run.
    ///
    /// After an `Emit` the caller writes the line and calls `cow` again;
    /// after a `WantChar` or `WantByte` the caller reads the value, stores it
    /// with [`Self::set_memory_value_from_integer`], and calls `cow` again;
    /// after a `Running` the caller simply calls `cow` again.
    pub fn cow(&mut self, steps: usize) -> (r: Result<RunEvent, EngineFault>)
        requires
            old(self).wf(),
        ensures
            final(self).wf(),
            run_outcome(old(self)@, final(self)@, steps as nat, r),
    {
        let ghost pre: EngineModel = self@;
        let mut k: usize = 0;
        while k < steps
            invariant
                self.wf(),
                k <= steps,
                pre == old(self)@,
                quiet_until(pre, k as nat),
                self@ == iters(pre, k as nat),
            decreases steps - k,
        {
            let ghost n: nat = k as nat;
            if self.i >= self.instructions.len() {
                proof {
                    assert(quiet_until(pre, n) && run_event_at(pre, n, self@, Ok(
                        RunEvent::Halted,
                    )));
                }
                return Ok(RunEvent::Halted);
            }
            let ghost s: EngineModel = self@;
            let step = self.instruction_interpreter();
            match step {
                Err(f) => {
                    proof {
                        assert(quiet_until(pre, n) && run_event_at(pre, n, self@, Err(f)));
                    }
                    return Err(f);
                },
                Ok(eff) => {
                    let backward = match self.incrementer.mode {
                        IncrementMode::Forward => false,
                        IncrementMode::Backward => true,
                    };
                    if backward && self.i == 0 {
                        proof {
                            assert(s.iter_kind() == StepKind::LoopFault);
                            assert(quiet_until(pre, n) && run_event_at(
                                pre,
                                n,
                                self@,
                                Err(EngineFault::UnterminatedLoop),
                            ));
                        }
                        return Err(EngineFault::UnterminatedLoop);
                    }
                    self.incrementer.next(&mut self.i);
                    proof {
                        assert(self@ =~= s.iter_post());
                        lemma_iters_snoc(pre, n);
                    }
                    match eff {
                        StepEffect::Ran => {
                            proof {
                                lemma_quiet_until_snoc(pre, n);
                            }
                            k = k + 1;
                        },
                        StepEffect::Emit(line) => {
                            proof {
                                assert(quiet_until(pre, n) && run_event_at(
                                    pre,
                                    n,
                                    self@,
                                    Ok(RunEvent::Emit(line)),
                                ));
                            }
                            return Ok(RunEvent::Emit(line));
                        },
                        StepEffect::WantChar => {
                            proof {
                                assert(quiet_until(pre, n) && run_event_at(
                                    pre,
                                    n,
                                    self@,
                                    Ok(RunEvent::WantChar),
                                ));
                            }
                            return Ok(RunEvent::WantChar);
                        },
                        StepEffect::WantByte => {
                            proof {
                                assert(quiet_until(pre, n) && run_event_at(
                                    pre,
                                    n,
                                    self@,
                                    Ok(RunEvent::WantByte),
                                ));
                            }
                            return Ok(RunEvent::WantByte);
                        },
                    }
                },
            }
        }
        if self.i >= self.instructions.len() {
            proof {
                assert(quiet_until(pre, steps as nat) && run_event_at(pre, steps as nat, self@, Ok(
                    RunEvent::Halted,
                )));
            }
            Ok(RunEvent::Halted)
        } else {
            proof {
                assert(quiet_until(pre, steps as nat) && run_event_at(pre, steps as nat, self@, Ok(
                    RunEvent::Running,
                )));
            }
            Ok(RunEvent::Running)
        }
    }
}

/// Law: a run never changes the instruction sequence, however many
/// iterations it takes.
pub proof fn lemma_run_preserves_instructions(s: EngineModel, n: nat)
    ensures
        iters(s, n).instructions == s.instructions,
    decreases n,
{
    if n > 0 {
        lemma_run_preserves_instructions(s.iter_post(), (n - 1) as nat);
    }
}

/// Law: the tape only grows, never shrinks, and the pointer stays inside it,
/// however many iterations a run takes.
pub proof fn lemma_tape_never_shrinks(s: EngineModel, n: nat)
    requires
        s.pointer < s.memory.len(),
    ensures
        iters(s, n).memory.len() >= s.memory.len(),
        iters(s, n).pointer < iters(s, n).memory.len(),
    decreases n,
{
    if n > 0 {
        assert(s.dispatch_post().pointer < s.dispatch_post().memory.len());
        assert(s.dispatch_post().memory.len() >= s.memory.len());
        assert(s.iter_post().memory == s.dispatch_post().memory);
        lemma_tape_never_shrinks(s.iter_post(), (n - 1) as nat);
    }
}

/// Whether a run from `s` is bound to hit the unterminated-loop fault: after
/// some number of silent iterations, the next iteration faults.
pub open spec fn reaches_unterminated_fault(s: EngineModel) -> bool {
    exists|n: nat|
        {
            &&& #[trigger] quiet_until(s, n)
            &&& iters(s, n).in_bounds()
            &&& iters(s, n).iter_kind() == StepKind::LoopFault
        }
}

/// A backward scan over tokens none of which is the loop opener runs past
/// the start of the sequence and faults.
proof fn lemma_backward_scan_faults(s: EngineModel)
    requires
        s.wf(),
        !s.armed,
        s.mode is Backward,
        s.in_bounds(),
        forall|k: int| 0 <= k <= s.i ==> s.instructions[k] != "MOO"@,
    ensures
        reaches_unterminated_fault(s),
    decreases s.i,
{
    assert(s.instructions[s.i] != "MOO"@);
    assert(s.dispatch_post() == s);
    assert(s.dispatch_kind() == StepKind::Quiet);
    if s.i == 0 {
        assert(s.iter_kind() == StepKind::LoopFault);
        assert(quiet_until(s, 0) && iters(s, 0).in_bounds() && iters(s, 0).iter_kind()
            == StepKind::LoopFault);
    } else {
        let s1 = s.iter_post();
        assert(s1 == EngineModel { i: s.i - 1, ..s });
        assert(s.iter_kind() == StepKind::Quiet);
        lemma_backward_scan_faults(s1);
        let n1 = choose|n: nat|
            {
                &&& #[trigger] quiet_until(s1, n)
                &&& iters(s1, n).in_bounds()
                &&& iters(s1, n).iter_kind() == StepKind::LoopFault
            };
        assert(quiet_until(s, n1 + 1));
        assert(iters(s, n1 + 1) == iters(s1, n1));
    }
}

/// Law: a loop-repeat token dispatched while armed, with no loop opener
/// anywhere among the tokens the backward scan will examine (every position
/// up to two before the repeat token; the position immediately before it is
/// skipped by the scan), drives the engine into the unterminated-loop fault.
pub proof fn lemma_moo_without_open_faults(s: EngineModel)
    requires
        s.wf(),
        s.armed,
        s.in_bounds(),
        s.tok() == "moo"@,
        forall|k: int| 0 <= k <= s.i - 2 ==> s.instructions[k] != "MOO"@,
    ensures
        reaches_unterminated_fault(s),
{
    if s.i == 0 {
        assert(s.dispatch_kind() == StepKind::LoopFault);
        assert(quiet_until(s, 0) && iters(s, 0).in_bounds() && iters(s, 0).iter_kind()
            == StepKind::LoopFault);
    } else if s.i == 1 {
        assert(s.dispatch_post().i == 0 && s.dispatch_post().mode is Backward);
        assert(s.iter_kind() == StepKind::LoopFault);
        assert(quiet_until(s, 0) && iters(s, 0).in_bounds() && iters(s, 0).iter_kind()
            == StepKind::LoopFault);
    } else {
        let s2 = s.iter_post();
        assert(s2 == EngineModel {
            i: s.i - 2,
            mode: IncrementMode::Backward,
            armed: false,
            ..s
        });
        assert(s.iter_kind() == StepKind::Quiet);
        lemma_backward_scan_faults(s2);
        let n2 = choose|n: nat|
            {
                &&& #[trigger] quiet_until(s2, n)
                &&& iters(s2, n).in_bounds()
                &&& iters(s2, n).iter_kind() == StepKind::LoopFault
            };
        assert(quiet_until(s, n2 + 1));
        assert(iters(s, n2 + 1) == iters(s2, n2));
    }
}

/// Every prefix of a silent run is silent, and strictly inside it every
/// iteration is in bounds and quiet.
pub proof fn lemma_quiet_until_prefix(s: EngineModel, m: nat, n: nat)
    requires
        quiet_until(s, n),
        m <= n,
    ensures
        quiet_until(s, m),
        m < n ==> iters(s, m).in_bounds() && iters(s, m).iter_kind() == StepKind::Quiet,
    decreases m,
{
    if m == 0 {
        if 0 < n {
            assert(iters(s, 0) == s);
        }
    } else {
        lemma_quiet_until_prefix(s.iter_post(), (m - 1) as nat, (n - 1) as nat);
        assert(quiet_until(s, m) == (s.in_bounds() && s.iter_kind() == StepKind::Quiet
            && quiet_until(s.iter_post(), (m - 1) as nat)));
        if m < n {
            assert(iters(s, m) == iters(s.iter_post(), (m - 1) as nat));
        }
    }
}

/// Law: once a run is bound for the unterminated-loop fault, the run loop
/// can only report that fault — or run out of its step budget before getting
/// there.  It cannot halt, print, ask for input, or report a bad token.
pub proof fn lemma_unterminated_forces_outcome(
    pre: EngineModel,
    post: EngineModel,
    fuel: nat,
    r: Result<RunEvent, EngineFault>,
)
    requires
        reaches_unterminated_fault(pre),
        run_outcome(pre, post, fuel, r),
    ensures
        (r matches Err(EngineFault::UnterminatedLoop)) || (r matches Ok(RunEvent::Running)),
{
    let n0 = choose|n: nat|
        {
            &&& #[trigger] quiet_until(pre, n)
            &&& iters(pre, n).in_bounds()
            &&& iters(pre, n).iter_kind() == StepKind::LoopFault
        };
    let n = choose|n: nat|
        {
            &&& #[trigger] quiet_until(pre, n)
            &&& n <= fuel
            &&& run_event_at(pre, n, post, r)
            &&& (r matches Ok(RunEvent::Running) ==> n == fuel)
        };
    if !(r matches Err(EngineFault::UnterminatedLoop)) && !(r matches Ok(RunEvent::Running)) {
        if n < n0 {
            lemma_quiet_until_prefix(pre, n, n0);
        } else if n0 < n {
            lemma_quiet_until_prefix(pre, n0, n);
        }
        assert(false);
    }
}

} // verus!
