//! The circular byte tape and its data pointer.

use crate::ops::{Action, Op};
use vstd::prelude::*;

verus! {

/// Number of cells on the tape.
pub const TAPE_SIZE: usize = 30_000;

/// The tape as a mathematical value: its cells and the data pointer.
pub struct TapeState {
    pub cells: Seq<u8>,
    pub pointer: int,
}

impl TapeState {
    /// The tape has exactly `TAPE_SIZE` cells and the pointer is one of their indices.
    pub open spec fn wf(self) -> bool {
        &&& self.cells.len() == TAPE_SIZE
        &&& 0 <= self.pointer < TAPE_SIZE
    }

    /// All cells zero, pointer at cell 0.
    pub open spec fn blank() -> TapeState {
        TapeState { cells: Seq::new(TAPE_SIZE as nat, |i: int| 0u8), pointer: 0 }
    }

    /// The cell under the pointer.
    pub open spec fn current(self) -> u8 {
        self.cells[self.pointer]
    }

    /// The same tape with the cell under the pointer replaced.
    pub open spec fn with_current(self, value: u8) -> TapeState {
        TapeState { cells: self.cells.update(self.pointer, value), pointer: self.pointer }
    }

    /// Pointer one cell further; from the last cell it goes to cell 0.
    pub open spec fn forward(self) -> TapeState {
        TapeState {
            cells: self.cells,
            pointer: if self.pointer == TAPE_SIZE - 1 {
                0
            } else {
                self.pointer + 1
            },
        }
    }

    /// Pointer one cell back; from cell 0 it goes to the last cell.
    pub open spec fn backward(self) -> TapeState {
        TapeState {
            cells: self.cells,
            pointer: if self.pointer == 0 {
                TAPE_SIZE - 1
            } else {
                self.pointer - 1
            },
        }
    }

    /// Current cell plus one, modulo 256.
    pub open spec fn incremented(self) -> TapeState {
        self.with_current(((self.current() + 1) % 256) as u8)
    }

    /// Current cell minus one, modulo 256.
    pub open spec fn decremented(self) -> TapeState {
        self.with_current(((self.current() + 255) % 256) as u8)
    }

    /// Current cell replaced by the byte that was read, or by 0 where the
    /// input had ended or could not be read.
    pub open spec fn stored(self, byte: Option<u8>) -> TapeState {
        self.with_current(
            match byte {
                Some(b) => b,
                None => 0u8,
            },
        )
    }

    /// The tape after one operation. Output, input and the loop operations
    /// leave the tape as it is: what is read arrives through `stored`.
    pub open spec fn after(self, op: Op) -> TapeState {
        match op {
            Op::MoveForward => self.forward(),
            Op::MoveBackward => self.backward(),
            Op::Increment => self.incremented(),
            Op::Decrement => self.decremented(),
            _ => self,
        }
    }

    /// What the caller has to do for one operation on this tape.
    pub open spec fn request(self, op: Op) -> Action {
        match op {
            Op::OutputByte => Action::Emit(self.current()),
            Op::InputByte => Action::Read,
            _ => Action::Proceed,
        }
    }

    /// The tape after a whole sequence of operations, first to last.
    pub open spec fn after_all(self, ops: Seq<Op>) -> TapeState
        decreases ops.len(),
    {
        if ops.len() == 0 {
            self
        } else {
            self.after(ops.first()).after_all(ops.drop_first())
        }
    }
}

/// How often `op` occurs in `ops`.
pub open spec fn occurrences(ops: Seq<Op>, op: Op) -> nat
    decreases ops.len(),
{
    if ops.len() == 0 {
        0
    } else {
        occurrences(ops.drop_first(), op) + if ops.first() == op {
            1nat
        } else {
            0nat
        }
    }
}

/// The sequence that holds `op` `count` times.
pub open spec fn repeated(op: Op, count: nat) -> Seq<Op> {
    Seq::new(count, |i: int| op)
}

/// Every operation of `ops` is an increment or a decrement.
pub open spec fn only_counting(ops: Seq<Op>) -> bool {
    forall|i: int| 0 <= i < ops.len() ==> ops[i] == Op::Increment || ops[i] == Op::Decrement
}

/// Every operation of `ops` moves the pointer or changes the current cell:
/// none reads, writes or loops.
pub open spec fn only_tape_ops(ops: Seq<Op>) -> bool {
    forall|i: int|
        0 <= i < ops.len() ==> {
            ||| #[trigger] ops[i] == Op::MoveForward
            ||| ops[i] == Op::MoveBackward
            ||| ops[i] == Op::Increment
            ||| ops[i] == Op::Decrement
        }
}

/// Every operation keeps a well-formed tape well formed.
pub proof fn lemma_after_keeps_wf(tape: TapeState, op: Op)
    requires
        tape.wf(),
    ensures
        tape.after(op).wf(),
{
}

/// An increment undoes a decrement and a decrement undoes an increment,
/// whatever the cell holds: the arithmetic wraps at both ends.
pub proof fn lemma_increment_decrement_cancel(tape: TapeState)
    requires
        tape.wf(),
    ensures
        tape.incremented().decremented() == tape,
        tape.decremented().incremented() == tape,
{
    assert(tape.incremented().decremented().cells =~= tape.cells);
    assert(tape.decremented().incremented().cells =~= tape.cells);
}

/// Increments and decrements, in any order, leave the pointer and every
/// other cell alone and change the current cell by the difference of their
/// counts, modulo 256.
pub proof fn lemma_counting_changes_cell_by_difference(tape: TapeState, ops: Seq<Op>)
    requires
        tape.wf(),
        only_counting(ops),
    ensures
        tape.after_all(ops) == tape.with_current(
            ((tape.current() + occurrences(ops, Op::Increment) - occurrences(ops, Op::Decrement))
                % 256) as u8,
        ),
    decreases ops.len(),
{
    if ops.len() == 0 {
        assert(tape.with_current(tape.current()).cells =~= tape.cells);
    } else {
        let next = tape.after(ops.first());
        let rest = ops.drop_first();
        assert(only_counting(rest)) by {
            assert forall|i: int| 0 <= i < rest.len() implies rest[i] == Op::Increment || rest[i]
                == Op::Decrement by {
                assert(rest[i] == ops[i + 1]);
            }
        }
        lemma_counting_changes_cell_by_difference(next, rest);
        assert(ops[0] == Op::Increment || ops[0] == Op::Decrement);
        let total = tape.current() + occurrences(ops, Op::Increment) - occurrences(
            ops,
            Op::Decrement,
        );
        let later = next.current() + occurrences(rest, Op::Increment) - occurrences(
            rest,
            Op::Decrement,
        );
        assert(later % 256 == total % 256);
        assert(tape.after_all(ops).cells =~= tape.with_current((total % 256) as u8).cells);
    }
}

/// A sequence of increments and decrements with as many of the one as of the
/// other leaves the whole tape as it was.
pub proof fn lemma_balanced_counting_restores_tape(tape: TapeState, ops: Seq<Op>)
    requires
        tape.wf(),
        only_counting(ops),
        occurrences(ops, Op::Increment) == occurrences(ops, Op::Decrement),
    ensures
        tape.after_all(ops) == tape,
{
    lemma_counting_changes_cell_by_difference(tape, ops);
    assert(tape.with_current(tape.current()).cells =~= tape.cells);
}

/// `count` moves forward put the pointer `count` cells further round the
/// circle and change no cell.
pub proof fn lemma_forward_moves(tape: TapeState, count: nat)
    requires
        tape.wf(),
    ensures
        tape.after_all(repeated(Op::MoveForward, count)) == (TapeState {
            cells: tape.cells,
            pointer: (tape.pointer + count) % (TAPE_SIZE as int),
        }),
    decreases count,
{
    let ops = repeated(Op::MoveForward, count);
    if count > 0 {
        assert(ops.drop_first() =~= repeated(Op::MoveForward, (count - 1) as nat));
        lemma_forward_moves(tape.forward(), (count - 1) as nat);
    }
}

/// `count` moves backward put the pointer `count` cells back round the
/// circle and change no cell.
pub proof fn lemma_backward_moves(tape: TapeState, count: nat)
    requires
        tape.wf(),
    ensures
        tape.after_all(repeated(Op::MoveBackward, count)) == (TapeState {
            cells: tape.cells,
            pointer: (tape.pointer - count) % (TAPE_SIZE as int),
        }),
    decreases count,
{
    let ops = repeated(Op::MoveBackward, count);
    if count > 0 {
        assert(ops.drop_first() =~= repeated(Op::MoveBackward, (count - 1) as nat));
        lemma_backward_moves(tape.backward(), (count - 1) as nat);
    }
}

/// Moving the pointer forward once for every cell of the tape brings it
/// back to where it started, and so does moving it backward as often.
pub proof fn lemma_full_circle(tape: TapeState)
    requires
        tape.wf(),
    ensures
        tape.after_all(repeated(Op::MoveForward, TAPE_SIZE as nat)) == tape,
        tape.after_all(repeated(Op::MoveBackward, TAPE_SIZE as nat)) == tape,
{
    lemma_forward_moves(tape, TAPE_SIZE as nat);
    lemma_backward_moves(tape, TAPE_SIZE as nat);
}

/// The tape of a running machine.
pub struct Tape {
    cells: Vec<u8>,
    pointer: usize,
}

impl View for Tape {
    type V = TapeState;

    closed spec fn view(&self) -> TapeState {
        TapeState { cells: self.cells@, pointer: self.pointer as int }
    }
}

impl Tape {
    /// A tape of `TAPE_SIZE` zero cells with the pointer at cell 0.
    pub fn new() -> (tape: Tape)
        ensures
            tape@ == TapeState::blank(),
            tape@.wf(),
    {
        let cells: Vec<u8> = vec![0u8; TAPE_SIZE];
        let tape = Tape { cells, pointer: 0 };
        assert(tape@.cells =~= TapeState::blank().cells);
        tape
    }

    /// Index of the cell under the pointer.
    pub fn pointer(&self) -> (p: usize)
        ensures
            p == self@.pointer,
    {
        self.pointer
    }

    /// Value of the cell under the pointer.
    pub fn current(&self) -> (value: u8)
        requires
            self@.wf(),
        ensures
            value == self@.current(),
    {
        self.cells[self.pointer]
    }

    /// Value of the cell at `index`, or `None` where the tape has no such cell.
    pub fn cell(&self, index: usize) -> (value: Option<u8>)
        requires
            self@.wf(),
        ensures
            value == if index < TAPE_SIZE {
                Some(self@.cells[index as int])
            } else {
                None
            },
    {
        if index < self.cells.len() {
            Some(self.cells[index])
        } else {
            None
        }
    }

    /// Moves the pointer one cell forward, wrapping from the last cell to cell 0.
    pub fn move_forward(&mut self)
        requires
            old(self)@.wf(),
        ensures
            final(self)@ == old(self)@.forward(),
            final(self)@.wf(),
    {
        self.pointer = if self.pointer == TAPE_SIZE - 1 {
            0
        } else {
            self.pointer + 1
        };
    }

    /// Moves the pointer one cell back, wrapping from cell 0 to the last cell.
    pub fn move_backward(&mut self)
        requires
            old(self)@.wf(),
        ensures
            final(self)@ == old(self)@.backward(),
            final(self)@.wf(),
    {
        self.pointer = if self.pointer == 0 {
            TAPE_SIZE - 1
        } else {
            self.pointer - 1
        };
    }

    /// Adds one to the current cell; 255 becomes 0.
    pub fn increment(&mut self)
        requires
            old(self)@.wf(),
        ensures
            final(self)@ == old(self)@.incremented(),
            final(self)@.wf(),
    {
        let value = self.cells[self.pointer].wrapping_add(1);
        self.cells.set(self.pointer, value);
    }

    /// Subtracts one from the current cell; 0 becomes 255.
    pub fn decrement(&mut self)
        requires
            old(self)@.wf(),
        ensures
            final(self)@ == old(self)@.decremented(),
            final(self)@.wf(),
    {
        let value = self.cells[self.pointer].wrapping_sub(1);
        self.cells.set(self.pointer, value);
    }

    /// Stores the byte that was read in the current cell, or 0 where the
    /// read gave nothing.
    pub fn store(&mut self, byte: Option<u8>)
        requires
            old(self)@.wf(),
        ensures
            final(self)@ == old(self)@.stored(byte),
            final(self)@.wf(),
    {
        let value = match byte {
            Some(b) => b,
            None => 0u8,
        };
        self.cells.set(self.pointer, value);
    }

    /// Performs one operation on the tape and tells the caller what input or
    /// output it asks for. The loop operations change nothing here: the
    /// engine that owns the instruction stream carries them out.
    pub fn perform(&mut self, op: Op) -> (action: Action)
        requires
            old(self)@.wf(),
        ensures
            final(self)@ == old(self)@.after(op),
            final(self)@.wf(),
            action == old(self)@.request(op),
    {
        match op {
            Op::MoveForward => {
                self.move_forward();
                Action::Proceed
            },
            Op::MoveBackward => {
                self.move_backward();
                Action::Proceed
            },
            Op::Increment => {
                self.increment();
                Action::Proceed
            },
            Op::Decrement => {
                self.decrement();
                Action::Proceed
            },
            Op::OutputByte => Action::Emit(self.current()),
            Op::InputByte => Action::Read,
            Op::LoopEnter => Action::Proceed,
            Op::LoopExit => Action::Proceed,
        }
    }
}

} // verus!
