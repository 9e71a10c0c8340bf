//! The four dialect levels and the bounded run of a program at each.

use crate::decoder::{decode_payload, payload};
use crate::dialect::Dialect;
use crate::engine::{execute, run_symbols, MachineState};
use crate::error::{EngineError, Failure};
use crate::pattern::{rejected_rule, run_patterns, PatternMachine, PatternState};
use crate::run::{Ending, Outcome, Run, Trace};
use crate::tape::{Tape, TapeState};
use crate::text::{byte_tokens, byte_values, char_tokens, code_points};
use vstd::prelude::*;

verus! {

/// One of the four dialects, by the selector that callers choose it with.
#[derive(Clone, Copy, Debug, PartialEq, Eq, Structural)]
pub enum Level {
    /// Selector 1: the first symbol dialect.
    One,
    /// Selector 2: the second symbol dialect.
    Two,
    /// Selector 3: the byte-encoded dialect.
    Three,
    /// Selector 4: the pattern dialect.
    Four,
}

impl Level {
    /// The level that `selector` chooses: 1 to 4 choose a level, any other
    /// value chooses none.
    pub open spec fn of_selector(selector: u8) -> Option<Level> {
        if selector == 1 {
            Some(Level::One)
        } else if selector == 2 {
            Some(Level::Two)
        } else if selector == 3 {
            Some(Level::Three)
        } else if selector == 4 {
            Some(Level::Four)
        } else {
            None
        }
    }

    /// The symbol table of the level; the pattern dialect has none.
    pub open spec fn table(self) -> Option<Dialect> {
        match self {
            Level::One => Some(Dialect::level1_table()),
            Level::Two => Some(Dialect::level2_table()),
            Level::Three => Some(Dialect::level3_table()),
            Level::Four => None,
        }
    }

    /// The level that `selector` chooses, or `None` for a selector outside 1 to 4.
    pub fn from_selector(selector: u8) -> (level: Option<Level>)
        ensures
            level == Level::of_selector(selector),
    {
        if selector == 1 {
            Some(Level::One)
        } else if selector == 2 {
            Some(Level::Two)
        } else if selector == 3 {
            Some(Level::Three)
        } else if selector == 4 {
            Some(Level::Four)
        } else {
            None
        }
    }

    /// The symbol table of the level, or `None` for the pattern dialect.
    pub fn dialect(self) -> (table: Option<Dialect>)
        ensures
            table == self.table(),
            table matches Some(d) ==> d.wf(),
    {
        match self {
            Level::One => Some(Dialect::level1()),
            Level::Two => Some(Dialect::level2()),
            Level::Three => Some(Dialect::level3()),
            Level::Four => None,
        }
    }
}

/// A run that failed before its first step: blank tape, nothing written,
/// nothing read.
pub open spec fn failed_before_start(failure: Failure) -> Trace {
    Trace {
        tape: TapeState::blank(),
        output: Seq::empty(),
        consumed: 0,
        ending: Ending::Failed(failure),
    }
}

/// The run of a textual symbol program: one symbol for each character of `code`.
pub open spec fn text_trace(d: Dialect, code: Seq<char>, input: Seq<u8>, fuel: nat) -> Trace {
    run_symbols(d, code_points(code), MachineState::start(), input, 0, Seq::empty(), fuel)
}

/// The run of a byte-encoded program: `code` is decoded first, and a
/// payload that does not decode fails the run before its first step.
pub open spec fn encoded_trace(code: Seq<char>, input: Seq<u8>, fuel: nat) -> Trace {
    match payload(code) {
        Some(bytes) => run_symbols(
            Dialect::level3_table(),
            byte_values(bytes),
            MachineState::start(),
            input,
            0,
            Seq::empty(),
            fuel,
        ),
        None => failed_before_start(Failure::InvalidEncoding),
    }
}

/// The run of a pattern program: a rule that the pattern engine refuses
/// fails the run before its first step.
pub open spec fn pattern_trace(code: Seq<char>, input: Seq<u8>, fuel: nat) -> Trace {
    match rejected_rule() {
        Some(rule) => failed_before_start(Failure::RuleRejected { rule }),
        None => run_patterns(PatternState::start(code), input, 0, Seq::empty(), fuel),
    }
}

/// The run of `code` at `level`, from a blank tape, for at most `fuel` steps.
pub open spec fn trace(level: Level, code: Seq<char>, input: Seq<u8>, fuel: nat) -> Trace {
    match level {
        Level::One => text_trace(Dialect::level1_table(), code, input, fuel),
        Level::Two => text_trace(Dialect::level2_table(), code, input, fuel),
        Level::Three => encoded_trace(code, input, fuel),
        Level::Four => pattern_trace(code, input, fuel),
    }
}

/// The result of a run that failed before its first step.
fn failed_at_once(error: EngineError) -> (run: Run)
    ensures
        run@ == failed_before_start(error@),
        run@.tape.wf(),
{
    Run { tape: Tape::new(), output: Vec::new(), consumed: 0, outcome: Outcome::Failed(error) }
}

/// Runs a program of the first dialect from a blank tape, reading from
/// `input`, for at most `max_steps` steps.
pub fn run_level1(code: &str, input: &[u8], max_steps: usize) -> (run: Run)
    ensures
        run@ == text_trace(Dialect::level1_table(), code@, input@, max_steps as nat),
        run@.tape.wf(),
{
    let program = char_tokens(code);
    execute(&Dialect::level1(), program.as_slice(), input, max_steps)
}

/// Runs a program of the second dialect from a blank tape, reading from
/// `input`, for at most `max_steps` steps.
pub fn run_level2(code: &str, input: &[u8], max_steps: usize) -> (run: Run)
    ensures
        run@ == text_trace(Dialect::level2_table(), code@, input@, max_steps as nat),
        run@.tape.wf(),
{
    let program = char_tokens(code);
    execute(&Dialect::level2(), program.as_slice(), input, max_steps)
}

/// Decodes and runs a program of the byte-encoded dialect from a blank
/// tape, reading from `input`, for at most `max_steps` steps. Where the
/// payload does not decode, nothing is executed.
pub fn run_level3(code: &str, input: &[u8], max_steps: usize) -> (run: Run)
    ensures
        run@ == encoded_trace(code@, input@, max_steps as nat),
        run@.tape.wf(),
{
    match decode_payload(code) {
        Ok(bytes) => {
            let program = byte_tokens(bytes.as_slice());
            execute(&Dialect::level3(), program.as_slice(), input, max_steps)
        },
        Err(error) => failed_at_once(error),
    }
}

/// Runs a program of the pattern dialect from a blank tape, reading from
/// `input`, for at most `max_steps` steps.
pub fn run_level4(code: &str, input: &[u8], max_steps: usize) -> (run: Run)
    ensures
        run@ == pattern_trace(code@, input@, max_steps as nat),
        run@.tape.wf(),
{
    match PatternMachine::new(code) {
        Ok(machine) => machine.run(input, max_steps),
        Err(error) => failed_at_once(error),
    }
}

/// Runs `code` at `level` from a blank tape, reading from `input`, for at
/// most `max_steps` steps.
pub fn run(level: Level, code: &str, input: &[u8], max_steps: usize) -> (run: Run)
    ensures
        run@ == trace(level, code@, input@, max_steps as nat),
        run@.tape.wf(),
{
    match level {
        Level::One => run_level1(code, input, max_steps),
        Level::Two => run_level2(code, input, max_steps),
        Level::Three => run_level3(code, input, max_steps),
        Level::Four => run_level4(code, input, max_steps),
    }
}

} // verus!
