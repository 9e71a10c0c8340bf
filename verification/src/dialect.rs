//! Dialect mappings: which surface symbol stands for which operation.

use crate::error::{EngineError, Failure};
use crate::ops::{Direction, Op};
use crate::text::{decimal, push_decimal};
use vstd::prelude::*;
use vstd::string::*;

verus! {

/// The table of one symbol dialect: a symbol for each of the eight
/// operations, whether symbols outside the table are an error, and the
/// dialect's wording for its failures.
///
/// A symbol is a Unicode code point for the textual dialects and a byte
/// value for the byte-encoded one.
#[derive(Clone, Copy, Debug)]
pub struct Dialect {
    pub move_forward: u32,
    pub move_backward: u32,
    pub increment: u32,
    pub decrement: u32,
    pub output: u32,
    pub input: u32,
    pub loop_enter: u32,
    pub loop_exit: u32,
    /// Whether a symbol outside the table stops the run. Where it does not,
    /// such a symbol is skipped.
    pub strict: bool,
    /// Shown when a loop entry finds no partner.
    pub unmatched_enter: &'static str,
    /// Shown when a loop exit finds no partner.
    pub unmatched_exit: &'static str,
    /// Shown, up to the offending value, when a strict dialect meets a
    /// symbol outside the table.
    pub unrecognized: &'static str,
}

impl Dialect {
    /// The symbol that stands for `op`.
    pub open spec fn symbol(self, op: Op) -> u32 {
        match op {
            Op::MoveForward => self.move_forward,
            Op::MoveBackward => self.move_backward,
            Op::Increment => self.increment,
            Op::Decrement => self.decrement,
            Op::OutputByte => self.output,
            Op::InputByte => self.input,
            Op::LoopEnter => self.loop_enter,
            Op::LoopExit => self.loop_exit,
        }
    }

    /// The table is one-to-one: no symbol stands for two operations.
    pub open spec fn wf(self) -> bool {
        forall|a: Op, b: Op| a != b ==> #[trigger] self.symbol(a) != #[trigger] self.symbol(b)
    }

    /// The operation that `token` stands for, if it is in the table.
    pub open spec fn op_of(self, token: u32) -> Option<Op> {
        if exists|op: Op| self.symbol(op) == token {
            Some(choose|op: Op| self.symbol(op) == token)
        } else {
            None
        }
    }

    /// The dialect's wording for a loop scan that found no partner.
    pub open spec fn unmatched_text(self, direction: Direction) -> Seq<char> {
        match direction {
            Direction::Forward => self.unmatched_enter@,
            Direction::Backward => self.unmatched_exit@,
        }
    }

    /// The dialect's wording for a symbol outside a strict table.
    pub open spec fn unrecognized_text(self, value: u32) -> Seq<char> {
        self.unrecognized@ + decimal(value as nat) + "'"@
    }

    /// The dialect's wording for a failure of the symbol engine, or `None`
    /// for a failure that the engine cannot meet in this dialect.
    pub open spec fn failure_text(self, failure: Failure) -> Option<Seq<char>> {
        match failure {
            Failure::UnmatchedBracket { direction, at } => Some(self.unmatched_text(direction)),
            Failure::UnrecognizedToken { at, value } => if self.strict {
                Some(self.unrecognized_text(value))
            } else {
                None
            },
            _ => None,
        }
    }

    /// First dialect: `~ ! * ^ @ #` and the loop pair `{ }`; other
    /// characters are skipped.
    pub open spec fn level1_table() -> Dialect {
        Dialect {
            move_forward: '~' as u32,
            move_backward: '!' as u32,
            increment: '*' as u32,
            decrement: '^' as u32,
            output: '@' as u32,
            input: '#' as u32,
            loop_enter: '{' as u32,
            loop_exit: '}' as u32,
            strict: false,
            unmatched_enter: "Unmatched '{'",
            unmatched_exit: "Unmatched '}'",
            unrecognized: "",
        }
    }

    /// Second dialect: `<` moves forward and `>` back, `-` increments and
    /// `+` decrements, `.` writes and `,` reads; `]` enters a loop and `[`
    /// leaves it. Other characters are skipped.
    pub open spec fn level2_table() -> Dialect {
        Dialect {
            move_forward: '<' as u32,
            move_backward: '>' as u32,
            increment: '-' as u32,
            decrement: '+' as u32,
            output: '.' as u32,
            input: ',' as u32,
            loop_enter: ']' as u32,
            loop_exit: '[' as u32,
            strict: false,
            unmatched_enter: "SAW ERROR: Teeth misaligned: ']' not closed.",
            unmatched_exit: "SAW ERROR: Blade jammed on unmatched '['.",
            unrecognized: "",
        }
    }

    /// Third dialect: the bytes `a` to `h` in the order of the eight
    /// operations; any other byte stops the run.
    pub open spec fn level3_table() -> Dialect {
        Dialect {
            move_forward: 'a' as u32,
            move_backward: 'b' as u32,
            increment: 'c' as u32,
            decrement: 'd' as u32,
            output: 'e' as u32,
            input: 'f' as u32,
            loop_enter: 'g' as u32,
            loop_exit: 'h' as u32,
            strict: true,
            unmatched_enter: "CHAINSAW ERROR: Chain flew off (unmatched 'g')",
            unmatched_exit: "CHAINSAW ERROR: Kickback fault (unmatched 'h')",
            unrecognized: "CHAINSAW ERROR: Stalled on unrecognized command byte '",
        }
    }

    /// The table of the first dialect.
    pub fn level1() -> (d: Dialect)
        ensures
            d == Dialect::level1_table(),
            d.wf(),
    {
        let d = Dialect {
            move_forward: '~' as u32,
            move_backward: '!' as u32,
            increment: '*' as u32,
            decrement: '^' as u32,
            output: '@' as u32,
            input: '#' as u32,
            loop_enter: '{' as u32,
            loop_exit: '}' as u32,
            strict: false,
            unmatched_enter: "Unmatched '{'",
            unmatched_exit: "Unmatched '}'",
            unrecognized: "",
        };
        d
    }

    /// The table of the second dialect.
    pub fn level2() -> (d: Dialect)
        ensures
            d == Dialect::level2_table(),
            d.wf(),
    {
        let d = Dialect {
            move_forward: '<' as u32,
            move_backward: '>' as u32,
            increment: '-' as u32,
            decrement: '+' as u32,
            output: '.' as u32,
            input: ',' as u32,
            loop_enter: ']' as u32,
            loop_exit: '[' as u32,
            strict: false,
            unmatched_enter: "SAW ERROR: Teeth misaligned: ']' not closed.",
            unmatched_exit: "SAW ERROR: Blade jammed on unmatched '['.",
            unrecognized: "",
        };
        d
    }

    /// The table of the third dialect.
    pub fn level3() -> (d: Dialect)
        ensures
            d == Dialect::level3_table(),
            d.wf(),
    {
        let d = Dialect {
            move_forward: 'a' as u32,
            move_backward: 'b' as u32,
            increment: 'c' as u32,
            decrement: 'd' as u32,
            output: 'e' as u32,
            input: 'f' as u32,
            loop_enter: 'g' as u32,
            loop_exit: 'h' as u32,
            strict: true,
            unmatched_enter: "CHAINSAW ERROR: Chain flew off (unmatched 'g')",
            unmatched_exit: "CHAINSAW ERROR: Kickback fault (unmatched 'h')",
            unrecognized: "CHAINSAW ERROR: Stalled on unrecognized command byte '",
        };
        d
    }

    /// The symbol that stands for `op` in this dialect.
    pub fn symbol_of(&self, op: Op) -> (token: u32)
        ensures
            token == self.symbol(op),
    {
        match op {
            Op::MoveForward => self.move_forward,
            Op::MoveBackward => self.move_backward,
            Op::Increment => self.increment,
            Op::Decrement => self.decrement,
            Op::OutputByte => self.output,
            Op::InputByte => self.input,
            Op::LoopEnter => self.loop_enter,
            Op::LoopExit => self.loop_exit,
        }
    }

    /// The dialect's wording for a loop scan that found no partner.
    pub fn unmatched_message(&self, direction: Direction) -> (text: &'static str)
        ensures
            text@ == self.unmatched_text(direction),
    {
        match direction {
            Direction::Forward => self.unmatched_enter,
            Direction::Backward => self.unmatched_exit,
        }
    }

    /// The dialect's wording for a failure of the symbol engine, or `None`
    /// for a failure that the engine cannot meet in this dialect.
    pub fn describe(&self, error: &EngineError) -> (text: Option<String>)
        ensures
            match text {
                Some(t) => self.failure_text(error@) == Some(t@),
                None => self.failure_text(error@) is None,
            },
    {
        match error {
            EngineError::UnmatchedBracket { direction, at } => Some(
                String::from_str(self.unmatched_message(*direction)),
            ),
            EngineError::UnrecognizedToken { at, value } => if self.strict {
                let mut text = String::from_str(self.unrecognized);
                push_decimal(&mut text, *value as u64);
                text.append("'");
                Some(text)
            } else {
                None
            },
            _ => None,
        }
    }

    /// In a one-to-one table, decoding is the inverse of `symbol`: a token
    /// stands for `op` exactly when it is the symbol of `op`.
    pub proof fn lemma_decoding_inverts_symbol(self, token: u32, op: Op)
        requires
            self.wf(),
        ensures
            self.op_of(token) == Some(op) <==> token == self.symbol(op),
            self.op_of(self.symbol(op)) == Some(op),
    {
        if token == self.symbol(op) {
            let chosen = choose|o: Op| self.symbol(o) == token;
            assert(self.symbol(chosen) == token);
            assert(chosen == op);
        }
        let chosen = choose|o: Op| self.symbol(o) == self.symbol(op);
        assert(self.symbol(chosen) == self.symbol(op));
        assert(chosen == op);
    }

    /// The operation that `token` stands for in this dialect, if any.
    pub fn decode(&self, token: u32) -> (op: Option<Op>)
        requires
            self.wf(),
        ensures
            op == self.op_of(token),
    {
        let found = if token == self.move_forward {
            Some(Op::MoveForward)
        } else if token == self.move_backward {
            Some(Op::MoveBackward)
        } else if token == self.increment {
            Some(Op::Increment)
        } else if token == self.decrement {
            Some(Op::Decrement)
        } else if token == self.output {
            Some(Op::OutputByte)
        } else if token == self.input {
            Some(Op::InputByte)
        } else if token == self.loop_enter {
            Some(Op::LoopEnter)
        } else if token == self.loop_exit {
            Some(Op::LoopExit)
        } else {
            None
        };
        proof {
            match found {
                Some(op) => {
                    assert(self.symbol(op) == token);
                    let chosen = choose|op: Op| self.symbol(op) == token;
                    assert(self.symbol(chosen) == token);
                    assert(chosen == op);
                },
                None => {
                    assert forall|op: Op| self.symbol(op) != token by {}
                },
            }
        }
        found
    }
}

} // verus!
