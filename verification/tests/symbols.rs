use tape_dialects::text::char_tokens;
use tape_dialects::{
    execute, run, run_level1, run_level2, Action, Dialect, Direction, EngineError, Level, Machine,
    Op, Outcome,
};

const HELLO: &str = "++++++++[>++++[>++>+++>+++>+<<<<-]>+>+>->>+[<]<-]>>.>---.+++++++..+++.>>.<-.<.+++.------.--------.>>+.>++.";

/// Spells a program written with the classic eight symbols in `dialect`.
fn spell(classic: &str, dialect: &Dialect) -> String {
    let mut spelled = String::new();
    for c in classic.chars() {
        let op = match c {
            '>' => Op::MoveForward,
            '<' => Op::MoveBackward,
            '+' => Op::Increment,
            '-' => Op::Decrement,
            '.' => Op::OutputByte,
            ',' => Op::InputByte,
            '[' => Op::LoopEnter,
            ']' => Op::LoopExit,
            _ => unreachable!(),
        };
        spelled.push(char::from_u32(dialect.symbol_of(op)).unwrap());
    }
    spelled
}

#[test]
fn level1_counts_down_in_a_loop_and_writes_zero() {
    let run = run_level1("****{^}@", &[], 1_000);
    assert_eq!(run.outcome, Outcome::Finished);
    assert_eq!(run.output, vec![0u8]);
    assert_eq!(run.tape.cell(0), Some(0));
    assert_eq!(run.tape.pointer(), 0);
    assert_eq!(run.consumed, 0);
}

#[test]
fn level1_loop_runs_once_for_each_count() {
    let run = run_level1("****{~*!^}~@", &[], 1_000);
    assert_eq!(run.outcome, Outcome::Finished);
    assert_eq!(run.output, vec![4u8]);
    assert_eq!(run.tape.cell(0), Some(0));
    assert_eq!(run.tape.cell(1), Some(4));
}

#[test]
fn level2_minus_increments() {
    let run = run_level2("-----.", &[], 1_000);
    assert_eq!(run.outcome, Outcome::Finished);
    assert_eq!(run.output, vec![5u8]);
}

#[test]
fn level2_moves_and_brackets_are_mirrored() {
    let run = run_level2("---]<--->+[<.", &[], 1_000);
    assert_eq!(run.outcome, Outcome::Finished);
    assert_eq!(run.output, vec![9u8]);
    assert_eq!(run.tape.cell(0), Some(0));
    assert_eq!(run.tape.pointer(), 1);
}

#[test]
fn level2_plus_decrements_below_zero() {
    let run = run_level2("+.", &[], 10);
    assert_eq!(run.output, vec![255u8]);
}

#[test]
fn level1_prints_a_greeting() {
    let run = run_level1(&spell(HELLO, &Dialect::level1()), &[], 1_000_000);
    assert_eq!(run.outcome, Outcome::Finished);
    assert_eq!(run.output, b"Hello World!\n".to_vec());
}

#[test]
fn level2_prints_a_greeting() {
    let run = run_level2(&spell(HELLO, &Dialect::level2()), &[], 1_000_000);
    assert_eq!(run.outcome, Outcome::Finished);
    assert_eq!(run.output, b"Hello World!\n".to_vec());
}

#[test]
fn symbols_outside_the_table_are_skipped() {
    let run = run_level1("a*b c*\n+-[]<>.,@ \u{e9}", &[], 1_000);
    assert_eq!(run.outcome, Outcome::Finished);
    assert_eq!(run.output, vec![2u8]);
    let run = run_level2("~!*^@#{}-x-.", &[], 1_000);
    assert_eq!(run.outcome, Outcome::Finished);
    assert_eq!(run.output, vec![2u8]);
}

#[test]
fn empty_program_finishes_at_once() {
    let run = run_level1("", &[1, 2, 3], 0);
    assert_eq!(run.outcome, Outcome::Finished);
    assert_eq!(run.output, Vec::<u8>::new());
    assert_eq!(run.consumed, 0);
}

#[test]
fn balanced_increments_and_decrements_restore_the_tape() {
    for code in ["*^", "^*", "**^^*^^*", "^^^^****"] {
        let run = run_level1(code, &[], 1_000);
        assert_eq!(run.outcome, Outcome::Finished);
        assert_eq!(run.tape.cell(0), Some(0));
        assert_eq!(run.tape.pointer(), 0);
    }
    let run = run_level2(&"-+".repeat(500), &[], 1_000);
    assert_eq!(run.outcome, Outcome::Finished);
    assert_eq!(run.tape.cell(0), Some(0));
}

#[test]
fn two_hundred_fifty_six_increments_wrap_to_zero() {
    let run = run_level1(&format!("{}@", "*".repeat(256)), &[], 1_000);
    assert_eq!(run.output, vec![0u8]);
}

#[test]
fn a_full_circle_of_moves_returns_the_pointer() {
    let run = run_level1(&format!("*~{}@", "~".repeat(30_000)), &[], 100_000);
    assert_eq!(run.outcome, Outcome::Finished);
    assert_eq!(run.tape.pointer(), 1);
    assert_eq!(run.output, vec![0u8]);
    let run = run_level2(&format!("-{}.", ">".repeat(30_000)), &[], 100_000);
    assert_eq!(run.outcome, Outcome::Finished);
    assert_eq!(run.tape.pointer(), 0);
    assert_eq!(run.output, vec![1u8]);
}

#[test]
fn moving_back_from_the_first_cell_reaches_the_last() {
    let run = run_level1("!*", &[], 10);
    assert_eq!(run.tape.pointer(), 29_999);
    assert_eq!(run.tape.cell(29_999), Some(1));
}

#[test]
fn loop_entry_on_zero_lands_one_past_its_partner() {
    let dialect = Dialect::level1();
    let program = char_tokens("{*{*}*}*@");
    let mut machine = Machine::new();
    assert_eq!(machine.step(&dialect, &program), Ok(Action::Proceed));
    assert_eq!(machine.position(), 7);
    assert_eq!(machine.tape().current(), 0);
    assert_eq!(machine.step(&dialect, &program), Ok(Action::Proceed));
    assert_eq!(machine.tape().current(), 1);
    assert_eq!(machine.step(&dialect, &program), Ok(Action::Emit(1)));
    assert_eq!(machine.step(&dialect, &program), Ok(Action::Halt));
    assert_eq!(machine.position(), 9);
    assert!(machine.halted(&program));
}

#[test]
fn loop_exit_on_nonzero_lands_one_past_its_partner() {
    let dialect = Dialect::level1();
    let program = char_tokens("*{^}");
    let mut machine = Machine::new();
    assert_eq!(machine.step(&dialect, &program), Ok(Action::Proceed));
    assert_eq!(machine.step(&dialect, &program), Ok(Action::Proceed));
    assert_eq!(machine.position(), 2);
    machine.supply(Some(2));
    assert_eq!(machine.step(&dialect, &program), Ok(Action::Proceed));
    assert_eq!(machine.tape().current(), 1);
    assert_eq!(machine.position(), 3);
    assert_eq!(machine.step(&dialect, &program), Ok(Action::Proceed));
    assert_eq!(machine.position(), 2);
}

#[test]
fn loop_entry_on_nonzero_and_exit_on_zero_go_straight_on() {
    let dialect = Dialect::level1();
    let program = char_tokens("*{^}");
    let mut machine = Machine::new();
    machine.step(&dialect, &program).unwrap();
    machine.step(&dialect, &program).unwrap();
    machine.step(&dialect, &program).unwrap();
    assert_eq!(machine.tape().current(), 0);
    assert_eq!(machine.step(&dialect, &program), Ok(Action::Proceed));
    assert_eq!(machine.position(), 4);
}

#[test]
fn lone_loop_entry_is_an_unmatched_bracket() {
    let expected = Outcome::Failed(EngineError::UnmatchedBracket {
        direction: Direction::Forward,
        at: 0,
    });
    assert_eq!(run_level1("{", &[], 10).outcome, expected);
    assert_eq!(run_level1("{***@", &[], 10).outcome, expected);
    assert_eq!(run_level2("]", &[], 10).outcome, expected);
    assert_eq!(run_level2("]-----.", &[], 10).outcome, expected);
}

#[test]
fn unclosed_nested_entry_is_an_unmatched_bracket() {
    let run = run_level1("~{{}", &[], 10);
    assert_eq!(
        run.outcome,
        Outcome::Failed(EngineError::UnmatchedBracket { direction: Direction::Forward, at: 1 })
    );
}

#[test]
fn lone_loop_exit_on_nonzero_is_an_unmatched_bracket() {
    let run = run_level1("*}", &[], 10);
    assert_eq!(
        run.outcome,
        Outcome::Failed(EngineError::UnmatchedBracket { direction: Direction::Backward, at: 1 })
    );
    assert_eq!(run.tape.cell(0), Some(1));
    let run = run_level2("-[", &[], 10);
    assert_eq!(
        run.outcome,
        Outcome::Failed(EngineError::UnmatchedBracket { direction: Direction::Backward, at: 1 })
    );
}

#[test]
fn lone_brackets_that_do_not_jump_are_harmless() {
    assert_eq!(run_level1("}", &[], 10).outcome, Outcome::Finished);
    assert_eq!(run_level1("*{", &[], 10).outcome, Outcome::Finished);
}

#[test]
fn a_failed_step_leaves_the_machine_as_it_was() {
    let dialect = Dialect::level1();
    let program = char_tokens("~{");
    let mut machine = Machine::new();
    machine.step(&dialect, &program).unwrap();
    let failed = machine.step(&dialect, &program);
    assert_eq!(
        failed,
        Err(EngineError::UnmatchedBracket { direction: Direction::Forward, at: 1 })
    );
    assert_eq!(machine.position(), 1);
    assert_eq!(machine.tape().pointer(), 1);
}

#[test]
fn output_before_a_failure_is_kept() {
    let run = run_level1("***@^@{", &[], 100);
    assert_eq!(run.output, vec![3u8, 2]);
    assert_eq!(run.outcome, Outcome::Finished);
    let run = run_level1("***@^^^@{", &[], 100);
    assert_eq!(run.output, vec![3u8, 0]);
    assert_eq!(
        run.outcome,
        Outcome::Failed(EngineError::UnmatchedBracket { direction: Direction::Forward, at: 8 })
    );
}

#[test]
fn reads_take_input_in_order_and_zero_after_its_end() {
    let run = run_level1("#@#@#@#@", &[7, 200], 100);
    assert_eq!(run.outcome, Outcome::Finished);
    assert_eq!(run.output, vec![7u8, 200, 0, 0]);
    assert_eq!(run.consumed, 2);
}

#[test]
fn a_read_overwrites_the_cell() {
    let run = run_level2("---,.", &[], 100);
    assert_eq!(run.output, vec![0u8]);
    assert_eq!(run.consumed, 0);
    let run = run_level2("---,.", &[42, 43], 100);
    assert_eq!(run.output, vec![42u8]);
    assert_eq!(run.consumed, 1);
}

#[test]
fn input_is_echoed_until_a_zero_byte() {
    let run = run_level1("#{@#}", b"echo\0more", 1_000);
    assert_eq!(run.outcome, Outcome::Finished);
    assert_eq!(run.output, b"echo".to_vec());
    assert_eq!(run.consumed, 5);
}

#[test]
fn the_step_limit_stops_an_endless_loop() {
    let run = run_level1("*{@}", &[], 10);
    assert_eq!(run.outcome, Outcome::StepLimit);
    assert_eq!(run.output, vec![1u8, 1, 1, 1]);
    assert_eq!(run.tape.cell(0), Some(1));
}

#[test]
fn the_step_limit_counts_executed_tokens() {
    assert_eq!(run_level1("***", &[], 3).outcome, Outcome::Finished);
    let run = run_level1("***", &[], 2);
    assert_eq!(run.outcome, Outcome::StepLimit);
    assert_eq!(run.tape.cell(0), Some(2));
    assert_eq!(run_level1("*", &[], 0).outcome, Outcome::StepLimit);
}

#[test]
fn execute_runs_any_table() {
    let program = char_tokens("----.");
    let run = execute(&Dialect::level2(), &program, &[], 100);
    assert_eq!(run.output, vec![4u8]);
    let run = execute(&Dialect::level1(), &program, &[], 100);
    assert_eq!(run.output, Vec::<u8>::new());
    assert_eq!(run.outcome, Outcome::Finished);
}

#[test]
fn run_dispatches_on_the_level() {
    assert_eq!(run(Level::One, "**@", &[], 100).output, vec![2u8]);
    assert_eq!(run(Level::Two, "--.", &[], 100).output, vec![2u8]);
    assert_eq!(run(Level::Three, "Y2Nl", &[], 100).output, vec![2u8]);
    assert_eq!(run(Level::Four, "AAAAAH AAAAAAH AAGH", &[], 100).output, vec![2u8]);
}

#[test]
fn a_machine_gives_up_its_tape() {
    let dialect = Dialect::level2();
    let program = char_tokens("<--");
    let mut machine = Machine::new();
    for _ in 0..3 {
        machine.step(&dialect, &program).unwrap();
    }
    let tape = machine.into_tape();
    assert_eq!(tape.pointer(), 1);
    assert_eq!(tape.cell(1), Some(2));
    assert_eq!(tape.cell(0), Some(0));
}

#[test]
fn read_next_walks_the_input_and_stops_at_its_end() {
    let input = [5u8, 6];
    assert_eq!(tape_dialects::run::read_next(&input, 0), (Some(5), 1));
    assert_eq!(tape_dialects::run::read_next(&input, 1), (Some(6), 2));
    assert_eq!(tape_dialects::run::read_next(&input, 2), (None, 2));
    assert_eq!(tape_dialects::run::read_next(&[], 0), (None, 0));
}

#[test]
fn a_dialect_words_its_own_failures() {
    let unmatched = EngineError::UnmatchedBracket { direction: Direction::Backward, at: 0 };
    let unknown = EngineError::UnrecognizedToken { at: 0, value: 33 };
    assert_eq!(Dialect::level1().describe(&unmatched).unwrap(), "Unmatched '}'");
    assert_eq!(Dialect::level1().describe(&unknown), None);
    assert_eq!(
        Dialect::level3().describe(&unknown).unwrap(),
        "CHAINSAW ERROR: Stalled on unrecognized command byte '33'"
    );
    assert_eq!(Dialect::level3().describe(&EngineError::InvalidEncoding), None);
}
