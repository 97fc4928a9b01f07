//! An interpreter for a small esoteric instruction set that runs over a
//! one-dimensional byte tape.
//!
//! A program is an ordered sequence of whitespace-delimited tokens, each one
//! of twelve fixed instruction codes.  The interpreter owns a growable,
//! zero-initialized tape of 8-bit cells with a movable pointer, and a cursor
//! into the instruction sequence.  One pair of tokens forms a loop construct
//! that is realized by scanning backward through the instruction stream.
//!
//! The crate is split into:
//! - [`tape`]: the byte memory and the operations on its cells,
//! - [`text`]: conversions between cell values and their textual forms,
//! - [`fault`]: the faults and the effects a dispatched instruction reports,
//! - [`engine`]: the dispatch state machine and the run loop.
//!
//! Reading from and writing to the outside world is left to the caller: the
//! engine reports what it needs (a line to print, a character or a number to
//! read) and the caller feeds the answer back in.

pub mod engine;
pub mod fault;
pub mod tape;
pub mod text;

pub use engine::CowIncrementer;
pub use engine::IncrementMode;
pub use engine::InstructionInterpreter;
pub use fault::EngineFault;
pub use fault::InvalidInstruction;
pub use fault::RunEvent;
pub use fault::StepEffect;
