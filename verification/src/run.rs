//! What a bounded run leaves behind.

use crate::error::{EngineError, Failure};
use crate::tape::{Tape, TapeState};
use vstd::prelude::*;

verus! {

/// How a run ended, as a mathematical value.
pub enum Ending {
    /// The program ran to its end.
    Finished,
    /// The step limit was reached before the program ended.
    StepLimit,
    /// The run stopped on a failure.
    Failed(Failure),
}

/// A run as a mathematical value: the final tape, the bytes written, how
/// many input bytes were taken, and how the run ended.
pub struct Trace {
    pub tape: TapeState,
    pub output: Seq<u8>,
    pub consumed: nat,
    pub ending: Ending,
}

/// The byte that a read gets after `consumed` bytes of `input` were taken,
/// or `None` at the end of the input.
pub open spec fn next_byte(input: Seq<u8>, consumed: nat) -> Option<u8> {
    if consumed < input.len() {
        Some(input[consumed as int])
    } else {
        None
    }
}

/// How many bytes of `input` are taken after one more read.
pub open spec fn after_read(input: Seq<u8>, consumed: nat) -> nat {
    if consumed < input.len() {
        consumed + 1
    } else {
        consumed
    }
}

/// How a run ended.
#[derive(Debug, PartialEq, Eq)]
pub enum Outcome {
    /// The program ran to its end.
    Finished,
    /// The step limit was reached before the program ended.
    StepLimit,
    /// The run stopped on a failure; what was written before it stays written.
    Failed(EngineError),
}

impl View for Outcome {
    type V = Ending;

    open spec fn view(&self) -> Ending {
        match *self {
            Outcome::Finished => Ending::Finished,
            Outcome::StepLimit => Ending::StepLimit,
            Outcome::Failed(error) => Ending::Failed(error@),
        }
    }
}

/// The result of a bounded run over an input buffer.
pub struct Run {
    /// The tape as the run left it.
    pub tape: Tape,
    /// The bytes written, in order.
    pub output: Vec<u8>,
    /// How many bytes of the input buffer were read.
    pub consumed: usize,
    /// How the run ended.
    pub outcome: Outcome,
}

impl View for Run {
    type V = Trace;

    open spec fn view(&self) -> Trace {
        Trace {
            tape: self.tape@,
            output: self.output@,
            consumed: self.consumed as nat,
            ending: self.outcome@,
        }
    }
}

/// Takes the next byte from the input buffer, if one is left.
pub fn read_next(input: &[u8], consumed: usize) -> (result: (Option<u8>, usize))
    requires
        consumed <= input@.len(),
    ensures
        result.0 == next_byte(input@, consumed as nat),
        result.1 == after_read(input@, consumed as nat),
        result.1 <= input@.len(),
{
    if consumed < input.len() {
        (Some(input[consumed]), consumed + 1)
    } else {
        (None, consumed)
    }
}

} // verus!
