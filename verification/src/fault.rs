//! Faults and effects reported by the dispatch step and the run loop.
//!
//! Instruction execution never panics: an unrecognized token and a loop
//! marker with no matching opener are reported as typed faults, and the two
//! blocking reads are reported as effects for the caller to fulfil.

use vstd::prelude::*;

verus! {

/// An unrecognized instruction token, carrying the offending text.
#[derive(Debug)]
pub struct InvalidInstruction {
    pub token: String,
}

/// A fault that ends a run at the point it occurs.
#[derive(Debug)]
pub enum EngineFault {
    /// A token that is none of the twelve instruction codes was dispatched.
    Invalid(InvalidInstruction),
    /// A backward scan for a loop opener ran past the start of the
    /// instruction sequence.
    UnterminatedLoop,
}

/// What a single dispatched instruction asks of the caller.
#[derive(Debug)]
pub enum StepEffect {
    /// The instruction was handled entirely inside the engine.
    Ran,
    /// The given text must be written to the output as one line.
    Emit(String),
    /// One character must be read from the input device and stored into the
    /// current cell.
    WantChar,
    /// One whole number in 0..=255 must be read from the input device and
    /// stored into the current cell.
    WantByte,
}

/// Where a run stopped and what it needs before it can go on.
#[derive(Debug)]
pub enum RunEvent {
    /// The cursor left the instruction sequence at the high end: the program
    /// is over.
    Halted,
    /// The step budget was used up while the program was still running; the
    /// run can be resumed as it stands.
    Running,
    /// The given text must be written to the output as one line; the run can
    /// then resume.
    Emit(String),
    /// One character must be read and stored into the current cell; the run
    /// can then resume.
    WantChar,
    /// One whole number in 0..=255 must be read and stored into the current
    /// cell; the run can then resume.
    WantByte,
}

} // verus!
