//! The pattern engine: the dialect whose instructions are recognised by
//! prioritised patterns at the front of the remaining text.
//!
//! The dialect has no loops. Each step tests all six rules against the text
//! that is left, takes the first rule in priority order that matches
//! (whatever the lengths of the matches), performs its operation and drops
//! the matched text.

use crate::error::{EngineError, Failure};
use crate::ops::{Action, Op};
use crate::run::{after_read, next_byte, read_next, Ending, Outcome, Run, Trace};
use crate::tape::{
    lemma_after_keeps_wf, lemma_balanced_counting_restores_tape, lemma_full_circle, occurrences,
    only_counting, only_tape_ops, repeated, Tape, TapeState, TAPE_SIZE,
};
use crate::text::{strip_whitespace, without_whitespace};
use vstd::prelude::*;
use vstd::string::*;

verus! {

/// `regex::Regex`, a compiled pattern: opaque here.
#[verifier::external_type_specification]
#[verifier::external_body]
pub struct ExRegex(regex::Regex);

/// `regex::Error`, what `Regex::new` fails with: opaque here.
#[verifier::external_type_specification]
#[verifier::external_body]
pub struct ExRegexError(regex::Error);

/// Whether `Regex::new` of the `regex` crate compiles `pattern`.
pub uninterp spec fn pattern_accepted(pattern: Seq<char>) -> bool;

/// The pattern that a compiled `Regex` was built from.
pub uninterp spec fn compiled_from(rule: regex::Regex) -> Seq<char>;

/// The text of the leftmost match that the `regex` crate finds for
/// `pattern` in `haystack`, or `None` where there is no match.
pub uninterp spec fn leftmost_match(pattern: Seq<char>, haystack: Seq<char>) -> Option<Seq<char>>;

/// Calls `Regex::new`. It fails on a pattern that the crate cannot parse or
/// finds too large; which patterns those are is named `pattern_accepted`.
/// A compiled regex stands for the pattern it was built from.
#[verifier::external_body]
fn compile(pattern: &str) -> (result: Result<regex::Regex, regex::Error>)
    ensures
        result is Ok == pattern_accepted(pattern@),
        result matches Ok(rule) ==> compiled_from(rule) == pattern@,
{
    regex::Regex::new(pattern)
}

/// Calls `Regex::find` and hands back the matched text, `Match::as_str`.
/// What matches is named `leftmost_match`; the one thing stated of it is
/// that the matched text is a part of the haystack, so it is no longer.
#[verifier::external_body]
fn find<'a>(rule: &regex::Regex, haystack: &'a str) -> (result: Option<&'a str>)
    ensures
        match result {
            Some(matched) => leftmost_match(compiled_from(*rule), haystack@) == Some(matched@),
            None => leftmost_match(compiled_from(*rule), haystack@) is None,
        },
        result matches Some(matched) ==> matched@.len() <= haystack@.len(),
{
    match rule.find(haystack) {
        Some(found) => Some(found.as_str()),
        None => None,
    }
}

/// Number of pattern rules.
pub const RULE_COUNT: usize = 6;

/// The pattern of each rule, by priority. All are anchored to the start of
/// the text and ignore case.
pub open spec fn rule_pattern(index: int) -> Seq<char> {
    if index == 0 {
        "(?i)^AAGH"@
    } else if index == 1 {
        "(?i)^A{5,}GH"@
    } else if index == 2 {
        "(?i)^[aA]+GH"@
    } else if index == 3 {
        "(?i)^A{5,}H"@
    } else if index == 4 {
        "(?i)^A{1,4}H"@
    } else {
        "(?i)^U+GH"@
    }
}

/// The operation of each rule, by priority. Unlike in the symbol tables,
/// the decrement stands before the increment; loops have no rule.
pub open spec fn rule_op(index: int) -> Op {
    if index == 0 {
        Op::OutputByte
    } else if index == 1 {
        Op::MoveForward
    } else if index == 2 {
        Op::Decrement
    } else if index == 3 {
        Op::Increment
    } else if index == 4 {
        Op::MoveBackward
    } else {
        Op::InputByte
    }
}

/// How many characters rule `index` matches in `text`, or `None` where it
/// does not match.
pub open spec fn match_length(index: int, text: Seq<char>) -> Option<nat> {
    match leftmost_match(rule_pattern(index), text) {
        Some(matched) => Some(matched.len()),
        None => None,
    }
}

/// Rule `index` matches `text` and no rule of higher priority does.
pub open spec fn selects(text: Seq<char>, index: int) -> bool {
    &&& 0 <= index < RULE_COUNT
    &&& match_length(index, text) is Some
    &&& forall|k: int| 0 <= k < index ==> #[trigger] match_length(k, text) is None
}

/// The rule that a step takes on `text`, with the length of its match:
/// the first rule in priority order that matches.
pub open spec fn selection(text: Seq<char>) -> Option<(int, nat)> {
    if exists|index: int| selects(text, index) {
        let index = choose|index: int| selects(text, index);
        Some((index, match_length(index, text)->0))
    } else {
        None
    }
}

/// The first rule, in priority order, that the pattern engine refuses to
/// compile, if there is one.
pub open spec fn rejected_rule() -> Option<nat> {
    if !pattern_accepted(rule_pattern(0)) {
        Some(0)
    } else if !pattern_accepted(rule_pattern(1)) {
        Some(1)
    } else if !pattern_accepted(rule_pattern(2)) {
        Some(2)
    } else if !pattern_accepted(rule_pattern(3)) {
        Some(3)
    } else if !pattern_accepted(rule_pattern(4)) {
        Some(4)
    } else if !pattern_accepted(rule_pattern(5)) {
        Some(5)
    } else {
        None
    }
}

/// `index` holds the first entry of `lengths` that is a match, of `length`.
pub open spec fn is_first_match(lengths: Seq<Option<usize>>, index: int, length: usize) -> bool {
    &&& 0 <= index < lengths.len()
    &&& lengths[index] == Some(length)
    &&& forall|k: int| 0 <= k < index ==> lengths[k] is None
}

/// The pattern of rule `index`.
pub fn rule_text(index: usize) -> (text: &'static str)
    requires
        index < RULE_COUNT,
    ensures
        text@ == rule_pattern(index as int),
{
    if index == 0 {
        "(?i)^AAGH"
    } else if index == 1 {
        "(?i)^A{5,}GH"
    } else if index == 2 {
        "(?i)^[aA]+GH"
    } else if index == 3 {
        "(?i)^A{5,}H"
    } else if index == 4 {
        "(?i)^A{1,4}H"
    } else {
        "(?i)^U+GH"
    }
}

/// The operation of rule `index`.
pub fn operation_of_rule(index: usize) -> (op: Op)
    requires
        index < RULE_COUNT,
    ensures
        op == rule_op(index as int),
        !op.is_loop(),
{
    if index == 0 {
        Op::OutputByte
    } else if index == 1 {
        Op::MoveForward
    } else if index == 2 {
        Op::Decrement
    } else if index == 3 {
        Op::Increment
    } else if index == 4 {
        Op::MoveBackward
    } else {
        Op::InputByte
    }
}

/// Picks the rule to take from the match lengths of all rules, listed by
/// priority: the first that matched, whatever the lengths.
pub fn select(lengths: &[Option<usize>]) -> (chosen: Option<(usize, usize)>)
    ensures
        match chosen {
            Some((index, length)) => is_first_match(lengths@, index as int, length),
            None => forall|k: int| 0 <= k < lengths@.len() ==> lengths@[k] is None,
        },
{
    let mut i: usize = 0;
    while i < lengths.len()
        invariant
            i <= lengths@.len(),
            forall|k: int| 0 <= k < i ==> lengths@[k] is None,
        decreases lengths@.len() - i,
    {
        match lengths[i] {
            Some(length) => {
                return Some((i, length));
            },
            None => {},
        }
        i = i + 1;
    }
    None
}

/// The six rules, compiled.
pub struct Rules {
    compiled: Vec<regex::Regex>,
}

impl Rules {
    /// There are six compiled rules, each built from its pattern.
    pub closed spec fn wf(&self) -> bool {
        &&& self.compiled@.len() == RULE_COUNT
        &&& forall|i: int|
            0 <= i < RULE_COUNT ==> compiled_from(#[trigger] self.compiled@[i]) == rule_pattern(i)
    }

    /// Compiles the six rules, or reports the first that the pattern engine
    /// refuses.
    pub fn compile() -> (result: Result<Rules, EngineError>)
        ensures
            match result {
                Ok(rules) => rules.wf() && rejected_rule() is None,
                Err(error) => rejected_rule() matches Some(rule) && error@ == (
                Failure::RuleRejected { rule }),
            },
    {
        let mut compiled: Vec<regex::Regex> = Vec::new();
        let mut i: usize = 0;
        while i < RULE_COUNT
            invariant
                i <= RULE_COUNT,
                compiled@.len() == i,
                forall|k: int| 0 <= k < i ==> compiled_from(#[trigger] compiled@[k]) == rule_pattern(k),
                forall|k: int| 0 <= k < i ==> pattern_accepted(#[trigger] rule_pattern(k)),
            decreases RULE_COUNT - i,
        {
            match compile(rule_text(i)) {
                Ok(rule) => {
                    compiled.push(rule);
                },
                Err(_) => {
                    return Err(EngineError::RuleRejected { rule: i });
                },
            }
            i = i + 1;
        }
        Ok(Rules { compiled })
    }

    /// Tests every rule against `text`: for each, by priority, the number of
    /// characters it matches, or `None`.
    pub fn probe(&self, text: &str) -> (lengths: Vec<Option<usize>>)
        requires
            self.wf(),
        ensures
            lengths@.len() == RULE_COUNT,
            forall|i: int|
                0 <= i < RULE_COUNT ==> match #[trigger] lengths@[i] {
                    Some(length) => match_length(i, text@) == Some(length as nat) && length
                        <= text@.len(),
                    None => match_length(i, text@) is None,
                },
    {
        let mut lengths: Vec<Option<usize>> = Vec::new();
        let mut i: usize = 0;
        while i < RULE_COUNT
            invariant
                self.wf(),
                i <= RULE_COUNT,
                lengths@.len() == i,
                forall|k: int|
                    0 <= k < i ==> match #[trigger] lengths@[k] {
                        Some(length) => match_length(k, text@) == Some(length as nat) && length
                            <= text@.len(),
                        None => match_length(k, text@) is None,
                    },
            decreases RULE_COUNT - i,
        {
            let length = match find(&self.compiled[i], text) {
                Some(matched) => Some(matched.unicode_len()),
                None => None,
            };
            lengths.push(length);
            i = i + 1;
        }
        lengths
    }
}

/// A pattern machine as a mathematical value: the tape and the text that
/// is still to be executed.
pub struct PatternState {
    pub tape: TapeState,
    pub remaining: Seq<char>,
}

impl PatternState {
    /// The tape is well formed.
    pub open spec fn wf(self) -> bool {
        self.tape.wf()
    }

    /// Blank tape, and all of `code` but its whitespace still to be executed.
    pub open spec fn start(code: Seq<char>) -> PatternState {
        PatternState { tape: TapeState::blank(), remaining: without_whitespace(code) }
    }

    /// No text is left.
    pub open spec fn halted(self) -> bool {
        self.remaining.len() == 0
    }

    /// Up to the first ten characters of the text that is left.
    pub open spec fn excerpt(self) -> Seq<char> {
        if self.remaining.len() < 10 {
            self.remaining
        } else {
            self.remaining.take(10)
        }
    }

    /// The same machine with the byte that was read stored in the current cell.
    pub open spec fn supplied(self, byte: Option<u8>) -> PatternState {
        PatternState { tape: self.tape.stored(byte), remaining: self.remaining }
    }

    /// One step, given the rule that was selected and the length of its
    /// match: the rule's operation is performed and the matched text is
    /// dropped from the front. Where no rule was selected the step fails
    /// with the start of the remaining text.
    pub open spec fn step_with(self, chosen: Option<(int, nat)>) -> Result<
        (PatternState, Action),
        Failure,
    > {
        if self.halted() {
            Ok((self, Action::Halt))
        } else {
            match chosen {
                Some((index, length)) => Ok(
                    (
                        PatternState {
                            tape: self.tape.after(rule_op(index)),
                            remaining: self.remaining.skip(length as int),
                        },
                        self.tape.request(rule_op(index)),
                    ),
                ),
                None => Err(Failure::UnintelligiblePattern { excerpt: self.excerpt() }),
            }
        }
    }

    /// One step of the engine on the text that is left.
    pub open spec fn step(self) -> Result<(PatternState, Action), Failure> {
        self.step_with(selection(self.remaining))
    }
}

/// A running pattern machine.
pub struct PatternMachine {
    rules: Rules,
    tape: Tape,
    remaining: String,
}

impl View for PatternMachine {
    type V = PatternState;

    closed spec fn view(&self) -> PatternState {
        PatternState { tape: self.tape@, remaining: self.remaining@ }
    }
}

impl PatternMachine {
    /// The rules are compiled and the tape is well formed.
    pub closed spec fn wf(&self) -> bool {
        self.rules.wf() && self.tape@.wf()
    }

    /// A machine with a blank tape that is about to execute `code`, less
    /// its whitespace. It fails where the pattern engine refuses a rule.
    pub fn new(code: &str) -> (result: Result<PatternMachine, EngineError>)
        ensures
            match result {
                Ok(machine) => {
                    &&& machine.wf()
                    &&& machine@ == PatternState::start(code@)
                    &&& rejected_rule() is None
                },
                Err(error) => rejected_rule() matches Some(rule) && error@ == (
                Failure::RuleRejected { rule }),
            },
    {
        match Rules::compile() {
            Ok(rules) => Ok(
                PatternMachine { rules, tape: Tape::new(), remaining: strip_whitespace(code) },
            ),
            Err(error) => Err(error),
        }
    }

    /// The machine's tape.
    pub fn tape(&self) -> (tape: &Tape)
        ensures
            tape@ == self@.tape,
    {
        &self.tape
    }

    /// Gives up the machine for its tape.
    pub fn into_tape(self) -> (tape: Tape)
        ensures
            tape@ == self@.tape,
    {
        self.tape
    }

    /// The text that is still to be executed.
    pub fn remaining(&self) -> (text: &str)
        ensures
            text@ == self@.remaining,
    {
        self.remaining.as_str()
    }

    /// Whether no text is left.
    pub fn halted(&self) -> (done: bool)
        ensures
            done == self@.halted(),
    {
        self.remaining.as_str().is_empty()
    }

    /// Stores the byte read for an `Action::Read` in the current cell, or 0
    /// where the read gave nothing.
    pub fn supply(&mut self, byte: Option<u8>)
        requires
            old(self).wf(),
        ensures
            final(self).wf(),
            final(self)@ == old(self)@.supplied(byte),
    {
        self.tape.store(byte);
    }

    /// Carries out one step for the rule that was selected: `chosen` holds
    /// the rule's index and the number of characters it matched, or `None`
    /// where no rule matched.
    pub fn apply(&mut self, chosen: Option<(usize, usize)>) -> (result: Result<Action, EngineError>)
        requires
            old(self).wf(),
            chosen matches Some((index, length)) ==> index < RULE_COUNT && length <= old(
                self,
            )@.remaining.len(),
        ensures
            final(self).wf(),
            match result {
                Ok(action) => old(self)@.step_with(as_selection(chosen)) == Ok::<
                    (PatternState, Action),
                    Failure,
                >((final(self)@, action)),
                Err(error) => old(self)@.step_with(as_selection(chosen)) == Err::<
                    (PatternState, Action),
                    Failure,
                >(error@) && final(self)@ == old(self)@,
            },
    {
        if self.remaining.as_str().is_empty() {
            return Ok(Action::Halt);
        }
        let total = self.remaining.as_str().unicode_len();
        match chosen {
            Some((index, length)) => {
                let action = self.tape.perform(operation_of_rule(index));
                let rest = self.remaining.as_str().substring_char(length, total).to_owned();
                self.remaining = rest;
                Ok(action)
            },
            None => {
                let shown = if total < 10 {
                    total
                } else {
                    10
                };
                let excerpt = self.remaining.as_str().substring_char(0, shown).to_owned();
                assert(excerpt@ =~= self@.excerpt());
                Err(EngineError::UnintelligiblePattern { excerpt })
            },
        }
    }

    /// Executes the instruction at the front of the remaining text.
    ///
    /// On success the machine is the one that `PatternState::step` gives and
    /// the result is what the caller has to do. On failure the machine is
    /// left as it was.
    pub fn step(&mut self) -> (result: Result<Action, EngineError>)
        requires
            old(self).wf(),
        ensures
            final(self).wf(),
            match result {
                Ok(action) => old(self)@.step() == Ok::<(PatternState, Action), Failure>(
                    (final(self)@, action),
                ),
                Err(error) => old(self)@.step() == Err::<(PatternState, Action), Failure>(error@)
                    && final(self)@ == old(self)@,
            },
    {
        let lengths = self.rules.probe(self.remaining.as_str());
        let chosen = select(lengths.as_slice());
        proof {
            lemma_selection_is_first_match(self@.remaining, lengths@, chosen);
        }
        self.apply(chosen)
    }

    /// Runs the machine from where it stands, reading from `input`, for at
    /// most `max_steps` steps.
    pub fn run(self, input: &[u8], max_steps: usize) -> (run: Run)
        requires
            self.wf(),
        ensures
            run@ == run_patterns(self@, input@, 0, Seq::empty(), max_steps as nat),
            run@.tape.wf(),
    {
        let mut machine = self;
        let mut output: Vec<u8> = Vec::new();
        let mut consumed: usize = 0;
        let mut fuel: usize = max_steps;
        let mut outcome = Outcome::StepLimit;
        let ghost whole = run_patterns(machine@, input@, 0, Seq::empty(), max_steps as nat);
        loop
            invariant_except_break
                machine.wf(),
                consumed <= input@.len(),
                whole == run_patterns(machine@, input@, consumed as nat, output@, fuel as nat),
            ensures
                machine.wf(),
                whole == (Trace {
                    tape: machine@.tape,
                    output: output@,
                    consumed: consumed as nat,
                    ending: outcome@,
                }),
            decreases fuel,
        {
            if machine.halted() {
                outcome = Outcome::Finished;
                break ;
            }
            if fuel == 0 {
                outcome = Outcome::StepLimit;
                break ;
            }
            match machine.step() {
                Err(error) => {
                    outcome = Outcome::Failed(error);
                    break ;
                },
                Ok(action) => {
                    match action {
                        Action::Emit(byte) => {
                            output.push(byte);
                        },
                        Action::Read => {
                            let (byte, taken) = read_next(input, consumed);
                            consumed = taken;
                            machine.supply(byte);
                        },
                        _ => {},
                    }
                },
            }
            fuel = fuel - 1;
        }
        Run { tape: machine.into_tape(), output, consumed, outcome }
    }
}

/// A selected rule and match length as mathematical values.
pub open spec fn as_selection(chosen: Option<(usize, usize)>) -> Option<(int, nat)> {
    match chosen {
        Some((index, length)) => Some((index as int, length as nat)),
        None => None,
    }
}

/// The first match among the lengths that a probe of `text` gave is the
/// rule that a step takes on `text`.
proof fn lemma_selection_is_first_match(
    text: Seq<char>,
    lengths: Seq<Option<usize>>,
    chosen: Option<(usize, usize)>,
)
    requires
        lengths.len() == RULE_COUNT,
        forall|i: int|
            0 <= i < RULE_COUNT ==> match #[trigger] lengths[i] {
                Some(length) => match_length(i, text) == Some(length as nat) && length
                    <= text.len(),
                None => match_length(i, text) is None,
            },
        match chosen {
            Some((index, length)) => is_first_match(lengths, index as int, length),
            None => forall|k: int| 0 <= k < lengths.len() ==> lengths[k] is None,
        },
    ensures
        as_selection(chosen) == selection(text),
        chosen matches Some((index, length)) ==> index < RULE_COUNT && length <= text.len(),
{
    match chosen {
        Some((index, length)) => {
            assert(lengths[index as int] == Some(length));
            assert(selects(text, index as int)) by {
                assert forall|k: int| 0 <= k < index implies #[trigger] match_length(k, text)
                    is None by {
                    assert(lengths[k] is None);
                }
            }
            let other = choose|other: int| selects(text, other);
            assert(selects(text, other));
            if other < index {
                assert(lengths[other] is None);
            }
            if index < other {
                assert(match_length(index as int, text) is None);
            }
        },
        None => {
            assert forall|index: int| !selects(text, index) by {
                if 0 <= index < RULE_COUNT {
                    assert(lengths[index] is None);
                }
            }
        },
    }
}

/// A run that ends before its steps are used up ends in the same way under
/// any larger limit: the limit cuts runs short and changes nothing else.
pub proof fn lemma_spare_steps_change_no_text_run(
    m: PatternState,
    input: Seq<u8>,
    consumed: nat,
    output: Seq<u8>,
    fuel: nat,
    more: nat,
)
    requires
        fuel <= more,
        !(run_patterns(m, input, consumed, output, fuel).ending is StepLimit),
    ensures
        run_patterns(m, input, consumed, output, more) == run_patterns(
            m,
            input,
            consumed,
            output,
            fuel,
        ),
    decreases fuel,
{
    if !m.halted() && fuel > 0 {
        match m.step() {
            Err(_) => {},
            Ok((next, action)) => {
                let less = (fuel - 1) as nat;
                let rest = (more - 1) as nat;
                match action {
                    Action::Emit(byte) => {
                        lemma_spare_steps_change_no_text_run(
                            next,
                            input,
                            consumed,
                            output.push(byte),
                            less,
                            rest,
                        );
                    },
                    Action::Read => {
                        lemma_spare_steps_change_no_text_run(
                            next.supplied(next_byte(input, consumed)),
                            input,
                            after_read(input, consumed),
                            output,
                            less,
                            rest,
                        );
                    },
                    _ => {
                        lemma_spare_steps_change_no_text_run(
                            next,
                            input,
                            consumed,
                            output,
                            less,
                            rest,
                        );
                    },
                }
            },
        }
    }
}

/// The steps of the engine on `text` perform exactly `ops`, instruction
/// for operation, and use the text up.
pub open spec fn performs(text: Seq<char>, ops: Seq<Op>) -> bool
    decreases ops.len(),
{
    if ops.len() == 0 {
        text.len() == 0
    } else {
        &&& text.len() > 0
        &&& selection(text) matches Some((index, length))
        &&& rule_op(index) == ops.first()
        &&& performs(text.skip(length as int), ops.drop_first())
    }
}

/// No rule stands for a loop operation: the pattern dialect has no loops.
pub proof fn lemma_rules_never_loop(index: int)
    ensures
        !rule_op(index).is_loop(),
{
}

/// Pattern text that only moves the pointer and changes cells runs to its
/// end within as many steps as it has instructions, reads and writes
/// nothing, and leaves the tape that its operations give, one after the other.
pub proof fn lemma_straight_line_text(
    m: PatternState,
    ops: Seq<Op>,
    input: Seq<u8>,
    consumed: nat,
    output: Seq<u8>,
    fuel: nat,
)
    requires
        m.wf(),
        performs(m.remaining, ops),
        only_tape_ops(ops),
        fuel >= ops.len(),
    ensures
        run_patterns(m, input, consumed, output, fuel) == (Trace {
            tape: m.tape.after_all(ops),
            output,
            consumed,
            ending: Ending::Finished,
        }),
    decreases ops.len(),
{
    if ops.len() > 0 {
        let (index, length) = selection(m.remaining)->0;
        let op = ops.first();
        assert(op == ops[0]);
        let next = PatternState {
            tape: m.tape.after(op),
            remaining: m.remaining.skip(length as int),
        };
        assert(m.step() == Ok::<(PatternState, Action), Failure>((next, Action::Proceed)));
        lemma_after_keeps_wf(m.tape, op);
        let rest = ops.drop_first();
        assert(only_tape_ops(rest)) by {
            assert forall|i: int| 0 <= i < rest.len() implies {
                ||| #[trigger] rest[i] == Op::MoveForward
                ||| rest[i] == Op::MoveBackward
                ||| rest[i] == Op::Increment
                ||| rest[i] == Op::Decrement
            } by {
                assert(rest[i] == ops[i + 1]);
            }
        }
        lemma_straight_line_text(next, rest, input, consumed, output, (fuel - 1) as nat);
    }
}

/// In the pattern dialect, text of increments and decrements with as many
/// of the one as of the other returns every cell to its value: the run ends
/// with the tape it started on.
pub proof fn lemma_balanced_counting_text(
    m: PatternState,
    ops: Seq<Op>,
    input: Seq<u8>,
    fuel: nat,
)
    requires
        m.wf(),
        performs(m.remaining, ops),
        only_counting(ops),
        occurrences(ops, Op::Increment) == occurrences(ops, Op::Decrement),
        fuel >= ops.len(),
    ensures
        run_patterns(m, input, 0, Seq::empty(), fuel) == (Trace {
            tape: m.tape,
            output: Seq::empty(),
            consumed: 0,
            ending: Ending::Finished,
        }),
{
    lemma_straight_line_text(m, ops, input, 0, Seq::empty(), fuel);
    lemma_balanced_counting_restores_tape(m.tape, ops);
}

/// In the pattern dialect, text that moves the pointer forward once for
/// each cell of the tape ends with the pointer where it started, and so
/// does text that moves it backward as often.
pub proof fn lemma_full_circle_text(
    m: PatternState,
    op: Op,
    input: Seq<u8>,
    fuel: nat,
)
    requires
        m.wf(),
        op == Op::MoveForward || op == Op::MoveBackward,
        performs(m.remaining, repeated(op, TAPE_SIZE as nat)),
        fuel >= TAPE_SIZE,
    ensures
        run_patterns(m, input, 0, Seq::empty(), fuel) == (Trace {
            tape: m.tape,
            output: Seq::empty(),
            consumed: 0,
            ending: Ending::Finished,
        }),
{
    lemma_straight_line_text(m, repeated(op, TAPE_SIZE as nat), input, 0, Seq::empty(), fuel);
    lemma_full_circle(m.tape);
}

/// The run of a pattern program from machine `m` on, for at most `fuel`
/// steps: `output` and `consumed` are what was written and read so far.
///
/// A read takes the next byte of `input`, or stores 0 once the input has
/// ended. The run ends when no text is left, on the first failure, or when
/// the steps are used up.
pub open spec fn run_patterns(
    m: PatternState,
    input: Seq<u8>,
    consumed: nat,
    output: Seq<u8>,
    fuel: nat,
) -> Trace
    decreases fuel,
{
    if m.halted() {
        Trace { tape: m.tape, output, consumed, ending: Ending::Finished }
    } else if fuel == 0 {
        Trace { tape: m.tape, output, consumed, ending: Ending::StepLimit }
    } else {
        match m.step() {
            Err(failure) => Trace { tape: m.tape, output, consumed, ending: Ending::Failed(failure) },
            Ok((next, action)) => match action {
                Action::Emit(byte) => run_patterns(
                    next,
                    input,
                    consumed,
                    output.push(byte),
                    (fuel - 1) as nat,
                ),
                Action::Read => run_patterns(
                    next.supplied(next_byte(input, consumed)),
                    input,
                    after_read(input, consumed),
                    output,
                    (fuel - 1) as nat,
                ),
                _ => run_patterns(next, input, consumed, output, (fuel - 1) as nat),
            },
        }
    }
}

} // verus!
