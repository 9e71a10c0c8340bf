//! The eight semantic operations, and what a step asks of its caller.

use vstd::prelude::*;

verus! {

/// One of the eight operations that every dialect reduces to.
#[derive(Clone, Copy, Debug, PartialEq, Eq, Structural)]
pub enum Op {
    MoveForward,
    MoveBackward,
    Increment,
    Decrement,
    OutputByte,
    InputByte,
    LoopEnter,
    LoopExit,
}

/// Which way a loop scan walks through the instruction stream.
#[derive(Clone, Copy, Debug, PartialEq, Eq, Structural)]
pub enum Direction {
    Forward,
    Backward,
}

/// What the caller of a step has to do before the next step.
#[derive(Clone, Copy, Debug, PartialEq, Eq, Structural)]
pub enum Action {
    /// Nothing: the step was internal to the machine.
    Proceed,
    /// Write this byte to the output and flush it.
    Emit(u8),
    /// Read one byte of input and hand it to the machine's `supply`.
    Read,
    /// The program has ended; nothing was executed.
    Halt,
}

impl Op {
    /// True for the two operations that only the bracketed dialects have.
    pub open spec fn is_loop(self) -> bool {
        self == Op::LoopEnter || self == Op::LoopExit
    }
}

} // verus!
