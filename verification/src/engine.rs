//! The symbol engine: one step function for the three bracketed dialects.

use crate::dialect::Dialect;
use crate::error::{EngineError, Failure};
use crate::matching::{
    closes_at, find_partner, lemma_entry_has_partner, lemma_exit_has_partner,
    lemma_lone_entry_has_no_partner, opens_at, partner, well_nested,
};
use crate::ops::{Action, Direction, Op};
use crate::run::{after_read, next_byte, read_next, Ending, Outcome, Run, Trace};
use crate::tape::{
    lemma_after_keeps_wf, lemma_balanced_counting_restores_tape, lemma_full_circle, occurrences,
    only_counting, only_tape_ops, repeated, Tape, TapeState, TAPE_SIZE,
};
use vstd::prelude::*;

verus! {

/// A symbol machine as a mathematical value: the tape and the instruction pointer.
pub struct MachineState {
    pub tape: TapeState,
    pub ip: int,
}

impl MachineState {
    /// The tape is well formed and the instruction pointer is not negative.
    pub open spec fn wf(self) -> bool {
        self.tape.wf() && self.ip >= 0
    }

    /// Blank tape, instruction pointer at the first token.
    pub open spec fn start() -> MachineState {
        MachineState { tape: TapeState::blank(), ip: 0 }
    }

    /// The instruction pointer has reached the end of the program.
    pub open spec fn halted(self, program: Seq<u32>) -> bool {
        self.ip >= program.len()
    }

    /// The same machine one token further.
    pub open spec fn advanced(self) -> MachineState {
        MachineState { tape: self.tape, ip: self.ip + 1 }
    }

    /// The same machine with the byte that was read stored in the current cell.
    pub open spec fn supplied(self, byte: Option<u8>) -> MachineState {
        MachineState { tape: self.tape.stored(byte), ip: self.ip }
    }

    /// A loop jump from the bracket under the instruction pointer: the
    /// pointer lands on the partner and then moves one past it.
    pub open spec fn jump(self, d: Dialect, program: Seq<u32>, direction: Direction) -> Result<
        (MachineState, Action),
        Failure,
    > {
        match partner(program, d.loop_enter, d.loop_exit, self.ip, direction) {
            Some(j) => Ok((MachineState { tape: self.tape, ip: j + 1 }, Action::Proceed)),
            None => Err(Failure::UnmatchedBracket { direction, at: self.ip }),
        }
    }

    /// One step of the engine: the machine after the token under the
    /// instruction pointer, and what the caller has to do for it.
    ///
    /// A token outside the dialect's table is skipped, or is a failure where
    /// the dialect is strict. A loop entry jumps forward when the current
    /// cell is 0; a loop exit jumps backward when it is not. After every
    /// token, jump or not, the instruction pointer moves on by one.
    pub open spec fn step(self, d: Dialect, program: Seq<u32>) -> Result<
        (MachineState, Action),
        Failure,
    > {
        if self.halted(program) {
            Ok((self, Action::Halt))
        } else {
            let token = program[self.ip];
            match d.op_of(token) {
                None => if d.strict {
                    Err(Failure::UnrecognizedToken { at: self.ip, value: token })
                } else {
                    Ok((self.advanced(), Action::Proceed))
                },
                Some(Op::LoopEnter) => if self.tape.current() == 0 {
                    self.jump(d, program, Direction::Forward)
                } else {
                    Ok((self.advanced(), Action::Proceed))
                },
                Some(Op::LoopExit) => if self.tape.current() != 0 {
                    self.jump(d, program, Direction::Backward)
                } else {
                    Ok((self.advanced(), Action::Proceed))
                },
                Some(op) => Ok(
                    (
                        MachineState { tape: self.tape.after(op), ip: self.ip + 1 },
                        self.tape.request(op),
                    ),
                ),
            }
        }
    }
}

/// A running symbol machine.
pub struct Machine {
    tape: Tape,
    ip: usize,
}

impl View for Machine {
    type V = MachineState;

    closed spec fn view(&self) -> MachineState {
        MachineState { tape: self.tape@, ip: self.ip as int }
    }
}

impl Machine {
    /// A machine with a blank tape at the start of its program.
    pub fn new() -> (machine: Machine)
        ensures
            machine@ == MachineState::start(),
            machine@.wf(),
    {
        Machine { tape: Tape::new(), ip: 0 }
    }

    /// The machine's tape.
    pub fn tape(&self) -> (tape: &Tape)
        ensures
            tape@ == self@.tape,
    {
        &self.tape
    }

    /// Gives up the machine for its tape.
    pub fn into_tape(self) -> (tape: Tape)
        ensures
            tape@ == self@.tape,
    {
        self.tape
    }

    /// Index of the token that the next step executes.
    pub fn position(&self) -> (ip: usize)
        ensures
            ip == self@.ip,
    {
        self.ip
    }

    /// Whether the instruction pointer has reached the end of `program`.
    pub fn halted(&self, program: &[u32]) -> (done: bool)
        ensures
            done == self@.halted(program@),
    {
        self.ip >= program.len()
    }

    /// Stores the byte read for an `Action::Read` in the current cell, or 0
    /// where the read gave nothing.
    pub fn supply(&mut self, byte: Option<u8>)
        requires
            old(self)@.wf(),
        ensures
            final(self)@ == old(self)@.supplied(byte),
            final(self)@.wf(),
    {
        self.tape.store(byte);
    }

    /// Executes the token under the instruction pointer.
    ///
    /// On success the machine is the one that `MachineState::step` gives and
    /// the result is what the caller has to do. On failure the machine is
    /// left as it was.
    pub fn step(&mut self, dialect: &Dialect, program: &[u32]) -> (result: Result<
        Action,
        EngineError,
    >)
        requires
            dialect.wf(),
            old(self)@.wf(),
        ensures
            final(self)@.wf(),
            match result {
                Ok(action) => old(self)@.step(*dialect, program@) == Ok::<
                    (MachineState, Action),
                    Failure,
                >((final(self)@, action)),
                Err(error) => old(self)@.step(*dialect, program@) == Err::<
                    (MachineState, Action),
                    Failure,
                >(error@) && final(self)@ == old(self)@,
            },
    {
        if self.ip >= program.len() {
            return Ok(Action::Halt);
        }
        let token = program[self.ip];
        match dialect.decode(token) {
            None => {
                if dialect.strict {
                    return Err(EngineError::UnrecognizedToken { at: self.ip, value: token });
                }
                self.ip = self.ip + 1;
                Ok(Action::Proceed)
            },
            Some(Op::LoopEnter) => {
                if self.tape.current() == 0 {
                    self.jump(dialect, program, Direction::Forward)
                } else {
                    self.ip = self.ip + 1;
                    Ok(Action::Proceed)
                }
            },
            Some(Op::LoopExit) => {
                if self.tape.current() != 0 {
                    self.jump(dialect, program, Direction::Backward)
                } else {
                    self.ip = self.ip + 1;
                    Ok(Action::Proceed)
                }
            },
            Some(op) => {
                let action = self.tape.perform(op);
                self.ip = self.ip + 1;
                Ok(action)
            },
        }
    }

    /// Moves the instruction pointer one past the partner of the bracket
    /// under it, or fails where the bracket has none.
    fn jump(&mut self, dialect: &Dialect, program: &[u32], direction: Direction) -> (result:
        Result<Action, EngineError>)
        requires
            dialect.wf(),
            old(self)@.wf(),
            old(self)@.ip < program@.len(),
        ensures
            final(self)@.wf(),
            match result {
                Ok(action) => old(self)@.jump(*dialect, program@, direction) == Ok::<
                    (MachineState, Action),
                    Failure,
                >((final(self)@, action)),
                Err(error) => old(self)@.jump(*dialect, program@, direction) == Err::<
                    (MachineState, Action),
                    Failure,
                >(error@) && final(self)@ == old(self)@,
            },
    {
        assert(dialect.symbol(Op::LoopEnter) != dialect.symbol(Op::LoopExit));
        match find_partner(program, self.ip, direction, dialect.loop_enter, dialect.loop_exit) {
            Some(j) => {
                assert(j < program.len());
                self.ip = j + 1;
                Ok(Action::Proceed)
            },
            None => Err(EngineError::UnmatchedBracket { direction, at: self.ip }),
        }
    }
}

/// The run of a symbol program from machine `m` on, for at most `fuel`
/// steps: `output` and `consumed` are what was written and read so far.
///
/// A read takes the next byte of `input`, or stores 0 once the input has
/// ended. The run ends when the instruction pointer reaches the end of the
/// program, on the first failure, or when the steps are used up.
pub open spec fn run_symbols(
    d: Dialect,
    program: Seq<u32>,
    m: MachineState,
    input: Seq<u8>,
    consumed: nat,
    output: Seq<u8>,
    fuel: nat,
) -> Trace
    decreases fuel,
{
    if m.halted(program) {
        Trace { tape: m.tape, output, consumed, ending: Ending::Finished }
    } else if fuel == 0 {
        Trace { tape: m.tape, output, consumed, ending: Ending::StepLimit }
    } else {
        match m.step(d, program) {
            Err(failure) => Trace { tape: m.tape, output, consumed, ending: Ending::Failed(failure) },
            Ok((next, action)) => match action {
                Action::Emit(byte) => run_symbols(
                    d,
                    program,
                    next,
                    input,
                    consumed,
                    output.push(byte),
                    (fuel - 1) as nat,
                ),
                Action::Read => run_symbols(
                    d,
                    program,
                    next.supplied(next_byte(input, consumed)),
                    input,
                    after_read(input, consumed),
                    output,
                    (fuel - 1) as nat,
                ),
                _ => run_symbols(d, program, next, input, consumed, output, (fuel - 1) as nat),
            },
        }
    }
}

/// Runs `program` in `dialect` from a blank tape, reading from `input`, for
/// at most `max_steps` steps.
pub fn execute(dialect: &Dialect, program: &[u32], input: &[u8], max_steps: usize) -> (run: Run)
    requires
        dialect.wf(),
    ensures
        run@ == run_symbols(
            *dialect,
            program@,
            MachineState::start(),
            input@,
            0,
            Seq::empty(),
            max_steps as nat,
        ),
        run@.tape.wf(),
{
    let mut machine = Machine::new();
    let mut output: Vec<u8> = Vec::new();
    let mut consumed: usize = 0;
    let mut fuel: usize = max_steps;
    let mut outcome = Outcome::StepLimit;
    let ghost whole = run_symbols(
        *dialect,
        program@,
        MachineState::start(),
        input@,
        0,
        Seq::empty(),
        max_steps as nat,
    );
    loop
        invariant_except_break
            dialect.wf(),
            machine@.wf(),
            consumed <= input@.len(),
            whole == run_symbols(
                *dialect,
                program@,
                machine@,
                input@,
                consumed as nat,
                output@,
                fuel as nat,
            ),
        ensures
            machine@.wf(),
            whole == (Trace {
                tape: machine@.tape,
                output: output@,
                consumed: consumed as nat,
                ending: outcome@,
            }),
        decreases fuel,
    {
        if machine.halted(program) {
            outcome = Outcome::Finished;
            break ;
        }
        if fuel == 0 {
            outcome = Outcome::StepLimit;
            break ;
        }
        match machine.step(dialect, program) {
            Err(error) => {
                outcome = Outcome::Failed(error);
                break ;
            },
            Ok(action) => {
                match action {
                    Action::Emit(byte) => {
                        output.push(byte);
                    },
                    Action::Read => {
                        let (byte, taken) = read_next(input, consumed);
                        consumed = taken;
                        machine.supply(byte);
                    },
                    _ => {},
                }
            },
        }
        fuel = fuel - 1;
    }
    Run { tape: machine.into_tape(), output, consumed, outcome }
}

/// A run that ends before its steps are used up ends in the same way under
/// any larger limit: the limit cuts runs short and changes nothing else.
pub proof fn lemma_spare_steps_change_nothing(
    d: Dialect,
    program: Seq<u32>,
    m: MachineState,
    input: Seq<u8>,
    consumed: nat,
    output: Seq<u8>,
    fuel: nat,
    more: nat,
)
    requires
        fuel <= more,
        !(run_symbols(d, program, m, input, consumed, output, fuel).ending is StepLimit),
    ensures
        run_symbols(d, program, m, input, consumed, output, more) == run_symbols(
            d,
            program,
            m,
            input,
            consumed,
            output,
            fuel,
        ),
    decreases fuel,
{
    if !m.halted(program) && fuel > 0 {
        match m.step(d, program) {
            Err(_) => {},
            Ok((next, action)) => {
                let less = (fuel - 1) as nat;
                let rest = (more - 1) as nat;
                match action {
                    Action::Emit(byte) => {
                        lemma_spare_steps_change_nothing(
                            d,
                            program,
                            next,
                            input,
                            consumed,
                            output.push(byte),
                            less,
                            rest,
                        );
                    },
                    Action::Read => {
                        lemma_spare_steps_change_nothing(
                            d,
                            program,
                            next.supplied(next_byte(input, consumed)),
                            input,
                            after_read(input, consumed),
                            output,
                            less,
                            rest,
                        );
                    },
                    _ => {
                        lemma_spare_steps_change_nothing(
                            d,
                            program,
                            next,
                            input,
                            consumed,
                            output,
                            less,
                            rest,
                        );
                    },
                }
            },
        }
    }
}

/// `program` spells `ops` in dialect `d`, symbol for operation.
pub open spec fn spells(d: Dialect, program: Seq<u32>, ops: Seq<Op>) -> bool {
    &&& program.len() == ops.len()
    &&& forall|i: int| 0 <= i < ops.len() ==> program[i] == d.symbol(#[trigger] ops[i])
}

/// The run of a program without loops, reads or writes, from token `from` on.
proof fn lemma_straight_line_from(
    d: Dialect,
    program: Seq<u32>,
    ops: Seq<Op>,
    m: MachineState,
    input: Seq<u8>,
    consumed: nat,
    output: Seq<u8>,
    fuel: nat,
)
    requires
        d.wf(),
        m.wf(),
        spells(d, program, ops),
        only_tape_ops(ops),
        m.ip <= program.len(),
        fuel >= program.len() - m.ip,
    ensures
        run_symbols(d, program, m, input, consumed, output, fuel) == (Trace {
            tape: m.tape.after_all(ops.subrange(m.ip, ops.len() as int)),
            output,
            consumed,
            ending: Ending::Finished,
        }),
    decreases program.len() - m.ip,
{
    let rest = ops.subrange(m.ip, ops.len() as int);
    if m.ip < program.len() {
        let op = ops[m.ip];
        d.lemma_decoding_inverts_symbol(program[m.ip], op);
        let next = MachineState { tape: m.tape.after(op), ip: m.ip + 1 };
        assert(m.step(d, program) == Ok::<(MachineState, Action), Failure>((next, Action::Proceed)));
        lemma_after_keeps_wf(m.tape, op);
        lemma_straight_line_from(d, program, ops, next, input, consumed, output, (fuel - 1) as nat);
        assert(rest.first() == op);
        assert(rest.drop_first() =~= ops.subrange(m.ip + 1, ops.len() as int));
    }
}

/// A program that only moves the pointer and changes cells runs to its end
/// within as many steps as it has tokens, reads and writes nothing, and
/// leaves the tape that its operations give, one after the other.
pub proof fn lemma_straight_line_run(
    d: Dialect,
    program: Seq<u32>,
    ops: Seq<Op>,
    tape: TapeState,
    input: Seq<u8>,
    consumed: nat,
    output: Seq<u8>,
    fuel: nat,
)
    requires
        d.wf(),
        tape.wf(),
        spells(d, program, ops),
        only_tape_ops(ops),
        fuel >= program.len(),
    ensures
        run_symbols(d, program, MachineState { tape, ip: 0 }, input, consumed, output, fuel) == (
        Trace { tape: tape.after_all(ops), output, consumed, ending: Ending::Finished }),
{
    lemma_straight_line_from(
        d,
        program,
        ops,
        MachineState { tape, ip: 0 },
        input,
        consumed,
        output,
        fuel,
    );
    assert(ops.subrange(0, ops.len() as int) =~= ops);
}

/// In every symbol dialect, a program of increments and decrements with as
/// many of the one as of the other returns every cell to its value: it ends
/// with the tape it started on.
pub proof fn lemma_balanced_counting_program(
    d: Dialect,
    program: Seq<u32>,
    ops: Seq<Op>,
    tape: TapeState,
    input: Seq<u8>,
    fuel: nat,
)
    requires
        d.wf(),
        tape.wf(),
        spells(d, program, ops),
        only_counting(ops),
        occurrences(ops, Op::Increment) == occurrences(ops, Op::Decrement),
        fuel >= program.len(),
    ensures
        run_symbols(d, program, MachineState { tape, ip: 0 }, input, 0, Seq::empty(), fuel) == (
        Trace { tape, output: Seq::empty(), consumed: 0, ending: Ending::Finished }),
{
    lemma_straight_line_run(d, program, ops, tape, input, 0, Seq::empty(), fuel);
    lemma_balanced_counting_restores_tape(tape, ops);
}

/// In every symbol dialect, a program that moves the pointer forward once
/// for each cell of the tape ends with the pointer where it started, and so
/// does one that moves it backward as often.
pub proof fn lemma_full_circle_program(
    d: Dialect,
    program: Seq<u32>,
    op: Op,
    tape: TapeState,
    input: Seq<u8>,
    fuel: nat,
)
    requires
        d.wf(),
        tape.wf(),
        op == Op::MoveForward || op == Op::MoveBackward,
        spells(d, program, repeated(op, TAPE_SIZE as nat)),
        fuel >= program.len(),
    ensures
        run_symbols(d, program, MachineState { tape, ip: 0 }, input, 0, Seq::empty(), fuel) == (
        Trace { tape, output: Seq::empty(), consumed: 0, ending: Ending::Finished }),
{
    lemma_straight_line_run(
        d,
        program,
        repeated(op, TAPE_SIZE as nat),
        tape,
        input,
        0,
        Seq::empty(),
        fuel,
    );
    lemma_full_circle(tape);
}

/// In a well-nested program, a loop entry met with a zero cell moves the
/// instruction pointer to exactly one past the loop exit that closes it,
/// and changes nothing else.
pub proof fn lemma_loop_entry_lands_past_partner(d: Dialect, program: Seq<u32>, m: MachineState)
    requires
        d.wf(),
        m.wf(),
        well_nested(program, d.loop_enter, d.loop_exit),
        m.ip < program.len(),
        program[m.ip] == d.loop_enter,
        m.tape.current() == 0,
    ensures
        exists|j: int|
            {
                &&& #[trigger] closes_at(program, d.loop_enter, d.loop_exit, m.ip, j)
                &&& program[j] == d.loop_exit
                &&& m.step(d, program) == Ok::<(MachineState, Action), Failure>(
                    (MachineState { tape: m.tape, ip: j + 1 }, Action::Proceed),
                )
            },
{
    assert(d.symbol(Op::LoopEnter) != d.symbol(Op::LoopExit));
    d.lemma_decoding_inverts_symbol(program[m.ip], Op::LoopEnter);
    lemma_entry_has_partner(program, d.loop_enter, d.loop_exit, m.ip);
    let j = partner(program, d.loop_enter, d.loop_exit, m.ip, Direction::Forward)->0;
    assert(closes_at(program, d.loop_enter, d.loop_exit, m.ip, j));
}

/// In a well-nested program, a loop exit met with a nonzero cell moves the
/// instruction pointer to exactly one past the loop entry that it closes,
/// and changes nothing else.
pub proof fn lemma_loop_exit_lands_past_partner(d: Dialect, program: Seq<u32>, m: MachineState)
    requires
        d.wf(),
        m.wf(),
        well_nested(program, d.loop_enter, d.loop_exit),
        m.ip < program.len(),
        program[m.ip] == d.loop_exit,
        m.tape.current() != 0,
    ensures
        exists|j: int|
            {
                &&& #[trigger] opens_at(program, d.loop_enter, d.loop_exit, m.ip, j)
                &&& program[j] == d.loop_enter
                &&& m.step(d, program) == Ok::<(MachineState, Action), Failure>(
                    (MachineState { tape: m.tape, ip: j + 1 }, Action::Proceed),
                )
            },
{
    assert(d.symbol(Op::LoopEnter) != d.symbol(Op::LoopExit));
    d.lemma_decoding_inverts_symbol(program[m.ip], Op::LoopExit);
    lemma_exit_has_partner(program, d.loop_enter, d.loop_exit, m.ip);
    let j = partner(program, d.loop_enter, d.loop_exit, m.ip, Direction::Backward)->0;
    assert(opens_at(program, d.loop_enter, d.loop_exit, m.ip, j));
}

/// In a well-nested program no step fails for want of a partner.
pub proof fn lemma_well_nested_always_matches(d: Dialect, program: Seq<u32>, m: MachineState)
    requires
        d.wf(),
        m.wf(),
        well_nested(program, d.loop_enter, d.loop_exit),
    ensures
        !(m.step(d, program) matches Err(Failure::UnmatchedBracket { .. })),
{
    if m.ip < program.len() {
        assert(d.symbol(Op::LoopEnter) != d.symbol(Op::LoopExit));
        let token = program[m.ip];
        d.lemma_decoding_inverts_symbol(token, Op::LoopEnter);
        d.lemma_decoding_inverts_symbol(token, Op::LoopExit);
        if token == d.loop_enter {
            lemma_entry_has_partner(program, d.loop_enter, d.loop_exit, m.ip);
        }
        if token == d.loop_exit {
            lemma_exit_has_partner(program, d.loop_enter, d.loop_exit, m.ip);
        }
    }
}

/// A loop entry with no loop exit anywhere after it, met with a zero cell,
/// is reported as an unmatched bracket at its own index: the step fails,
/// and so does every run that reaches it with a step to spare.
pub proof fn lemma_lone_entry_is_unmatched(
    d: Dialect,
    program: Seq<u32>,
    m: MachineState,
    input: Seq<u8>,
    consumed: nat,
    output: Seq<u8>,
    fuel: nat,
)
    requires
        d.wf(),
        m.wf(),
        m.ip < program.len(),
        program[m.ip] == d.loop_enter,
        m.tape.current() == 0,
        forall|k: int| m.ip < k < program.len() ==> program[k] != d.loop_exit,
        fuel > 0,
    ensures
        m.step(d, program) == Err::<(MachineState, Action), Failure>(
            Failure::UnmatchedBracket { direction: Direction::Forward, at: m.ip },
        ),
        run_symbols(d, program, m, input, consumed, output, fuel) == (Trace {
            tape: m.tape,
            output,
            consumed,
            ending: Ending::Failed(
                Failure::UnmatchedBracket { direction: Direction::Forward, at: m.ip },
            ),
        }),
{
    d.lemma_decoding_inverts_symbol(program[m.ip], Op::LoopEnter);
    lemma_lone_entry_has_no_partner(program, d.loop_enter, d.loop_exit, m.ip);
}

} // verus!
