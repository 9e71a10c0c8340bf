use tape_dialects::pattern::{operation_of_rule, rule_text, select, Rules, RULE_COUNT};
use tape_dialects::{run_level4, Action, EngineError, Op, Outcome, PatternMachine};

fn unintelligible(excerpt: &str) -> Outcome {
    Outcome::Failed(EngineError::UnintelligiblePattern { excerpt: excerpt.to_string() })
}

#[test]
fn five_letters_before_gh_move_forward() {
    let run = run_level4("AAAAAGH", &[], 100);
    assert_eq!(run.outcome, Outcome::Finished);
    assert_eq!(run.tape.pointer(), 1);
    assert_eq!(run.tape.cell(0), Some(0));
    assert_eq!(run.tape.cell(1), Some(0));
    assert_eq!(run.output, Vec::<u8>::new());
}

#[test]
fn text_that_no_rule_matches_is_unintelligible() {
    let run = run_level4("XYZ", &[], 100);
    assert_eq!(run.outcome, unintelligible("XYZ"));
    assert_eq!(run.output, Vec::<u8>::new());
}

#[test]
fn rules_are_listed_by_priority() {
    assert_eq!(RULE_COUNT, 6);
    assert_eq!(rule_text(0), "(?i)^AAGH");
    assert_eq!(rule_text(1), "(?i)^A{5,}GH");
    assert_eq!(rule_text(2), "(?i)^[aA]+GH");
    assert_eq!(rule_text(3), "(?i)^A{5,}H");
    assert_eq!(rule_text(4), "(?i)^A{1,4}H");
    assert_eq!(rule_text(5), "(?i)^U+GH");
    assert_eq!(operation_of_rule(0), Op::OutputByte);
    assert_eq!(operation_of_rule(1), Op::MoveForward);
    assert_eq!(operation_of_rule(2), Op::Decrement);
    assert_eq!(operation_of_rule(3), Op::Increment);
    assert_eq!(operation_of_rule(4), Op::MoveBackward);
    assert_eq!(operation_of_rule(5), Op::InputByte);
}

#[test]
fn probe_reports_the_length_of_each_match() {
    let rules = Rules::compile().unwrap();
    assert_eq!(rules.probe("AAGHAH"), vec![Some(4), None, Some(4), None, None, None]);
    assert_eq!(rules.probe("AAAAAAGHXYZ"), vec![None, Some(8), Some(8), None, None, None]);
    assert_eq!(rules.probe("aGh"), vec![None, None, Some(3), None, None, None]);
    assert_eq!(rules.probe("AAAAAAAH"), vec![None, None, None, Some(8), None, None]);
    assert_eq!(rules.probe("AAAHAAAH"), vec![None, None, None, None, Some(4), None]);
    assert_eq!(rules.probe("UUUGHU"), vec![None, None, None, None, None, Some(5)]);
    assert_eq!(rules.probe("HAAGH"), vec![None, None, None, None, None, None]);
    assert_eq!(rules.probe(""), vec![None, None, None, None, None, None]);
}

#[test]
fn select_takes_the_first_match_whatever_its_length() {
    assert_eq!(select(&[None, Some(7), Some(7), None, None, None]), Some((1, 7)));
    assert_eq!(select(&[Some(2), Some(9)]), Some((0, 2)));
    assert_eq!(select(&[Some(9), Some(2)]), Some((0, 9)));
    assert_eq!(select(&[None, None, None, None, None, Some(3)]), Some((5, 3)));
    assert_eq!(select(&[None, None, None, None, None, None]), None);
    assert_eq!(select(&[]), None);
}

#[test]
fn each_rule_performs_its_operation() {
    let run = run_level4("AAAAAHAAAAAHAAAAAH", &[], 100);
    assert_eq!(run.tape.cell(0), Some(3));
    let run = run_level4("AGH", &[], 100);
    assert_eq!(run.tape.cell(0), Some(255));
    let run = run_level4("AAAGHAAAAGH", &[], 100);
    assert_eq!(run.tape.cell(0), Some(254));
    let run = run_level4("AH", &[], 100);
    assert_eq!(run.tape.pointer(), 29_999);
    let run = run_level4("AAAAAGHAAAAAAAGHAAAAH", &[], 100);
    assert_eq!(run.tape.pointer(), 1);
    let run = run_level4("UGHAAGHUUUGHAAGH", &[65], 100);
    assert_eq!(run.output, vec![65u8, 0]);
    assert_eq!(run.consumed, 1);
    assert_eq!(run.outcome, Outcome::Finished);
}

#[test]
fn the_shorter_spelling_decrements_and_the_longer_increments() {
    let run = run_level4("AAAAAH AAGH AAAGH AAAGH AAGH", &[], 100);
    assert_eq!(run.outcome, Outcome::Finished);
    assert_eq!(run.output, vec![1u8, 255]);
}

#[test]
fn priority_decides_between_rules_that_match_the_same_text() {
    let run = run_level4("AAGH", &[], 100);
    assert_eq!(run.outcome, Outcome::Finished);
    assert_eq!(run.output, vec![0u8]);
    assert_eq!(run.tape.cell(0), Some(0));
    let run = run_level4("AAAAAAGH", &[], 100);
    assert_eq!(run.tape.pointer(), 1);
    assert_eq!(run.tape.cell(0), Some(0));
}

#[test]
fn letters_match_in_either_case() {
    let run = run_level4("aaaaah AaAaAh aagh ugh AaGh", &[9], 100);
    assert_eq!(run.outcome, Outcome::Finished);
    assert_eq!(run.output, vec![2u8, 9]);
}

#[test]
fn whitespace_is_removed_before_matching() {
    let run = run_level4("A A A A A H\n\tA A\u{2003}G H\r\n", &[], 100);
    assert_eq!(run.outcome, Outcome::Finished);
    assert_eq!(run.output, vec![1u8]);
    let run = run_level4(" \n ", &[], 0);
    assert_eq!(run.outcome, Outcome::Finished);
}

#[test]
fn a_program_writes_a_letter() {
    let code = format!("{}AAGH", "AAAAAH".repeat(65));
    let run = run_level4(&code, &[], 1_000);
    assert_eq!(run.outcome, Outcome::Finished);
    assert_eq!(run.output, b"A".to_vec());
}

#[test]
fn the_excerpt_holds_at_most_ten_characters() {
    assert_eq!(run_level4("0123456789ABCDEF", &[], 100).outcome, unintelligible("0123456789"));
    assert_eq!(run_level4("0123456789", &[], 100).outcome, unintelligible("0123456789"));
    assert_eq!(run_level4("012345678", &[], 100).outcome, unintelligible("012345678"));
    assert_eq!(run_level4("H", &[], 100).outcome, unintelligible("H"));
    assert_eq!(run_level4("X Y\nZ", &[], 100).outcome, unintelligible("XYZ"));
}

#[test]
fn the_excerpt_counts_characters() {
    let run = run_level4(&"\u{e9}".repeat(13), &[], 100);
    assert_eq!(run.outcome, unintelligible(&"\u{e9}".repeat(10)));
    let run = run_level4("\u{4e16}\u{754c}", &[], 100);
    assert_eq!(run.outcome, unintelligible("\u{4e16}\u{754c}"));
}

#[test]
fn what_was_done_before_a_failure_stays() {
    let run = run_level4("AAAAAH AAGH AAAAAGH XYZ AAGH", &[], 100);
    assert_eq!(run.outcome, unintelligible("XYZAAGH"));
    assert_eq!(run.output, vec![1u8]);
    assert_eq!(run.tape.pointer(), 1);
    assert_eq!(run.tape.cell(0), Some(1));
}

#[test]
fn a_rule_must_match_at_the_front() {
    assert_eq!(run_level4("GHAAGH", &[], 100).outcome, unintelligible("GHAAGH"));
    assert_eq!(run_level4("AAAAA", &[], 100).outcome, unintelligible("AAAAA"));
    assert_eq!(run_level4("AAG", &[], 100).outcome, unintelligible("AAG"));
}

#[test]
fn the_step_limit_stops_a_pattern_run() {
    let run = run_level4("AAAAAHAAAAAHAAAAAH", &[], 2);
    assert_eq!(run.outcome, Outcome::StepLimit);
    assert_eq!(run.tape.cell(0), Some(2));
    assert_eq!(run_level4("AAAAAHAAAAAHAAAAAH", &[], 3).outcome, Outcome::Finished);
}

#[test]
fn a_step_drops_the_matched_text() {
    let mut machine = PatternMachine::new("AH  AAAAAAH\nAAGH ugh").unwrap();
    assert_eq!(machine.remaining(), "AHAAAAAAHAAGHugh");
    assert!(!machine.halted());
    assert_eq!(machine.step(), Ok(Action::Proceed));
    assert_eq!(machine.remaining(), "AAAAAAHAAGHugh");
    assert_eq!(machine.tape().pointer(), 29_999);
    assert_eq!(machine.step(), Ok(Action::Proceed));
    assert_eq!(machine.remaining(), "AAGHugh");
    assert_eq!(machine.tape().current(), 1);
    assert_eq!(machine.step(), Ok(Action::Emit(1)));
    assert_eq!(machine.remaining(), "ugh");
    assert_eq!(machine.step(), Ok(Action::Read));
    machine.supply(Some(50));
    assert_eq!(machine.tape().current(), 50);
    assert_eq!(machine.remaining(), "");
    assert!(machine.halted());
    assert_eq!(machine.step(), Ok(Action::Halt));
    assert_eq!(machine.tape().current(), 50);
}

#[test]
fn a_failed_step_leaves_the_text_in_place() {
    let mut machine = PatternMachine::new("AAAAAH?!").unwrap();
    assert_eq!(machine.step(), Ok(Action::Proceed));
    assert_eq!(
        machine.step(),
        Err(EngineError::UnintelligiblePattern { excerpt: "?!".to_string() })
    );
    assert_eq!(machine.remaining(), "?!");
    assert_eq!(machine.tape().current(), 1);
}

#[test]
fn apply_carries_out_a_given_selection() {
    let mut machine = PatternMachine::new("0123456789abc").unwrap();
    assert_eq!(machine.apply(Some((3, 4))), Ok(Action::Proceed));
    assert_eq!(machine.tape().current(), 1);
    assert_eq!(machine.remaining(), "456789abc");
    assert_eq!(machine.apply(Some((0, 0))), Ok(Action::Emit(1)));
    assert_eq!(machine.remaining(), "456789abc");
    assert_eq!(machine.apply(Some((1, 9))), Ok(Action::Proceed));
    assert_eq!(machine.tape().pointer(), 1);
    assert_eq!(machine.remaining(), "");
    assert_eq!(machine.apply(Some((5, 0))), Ok(Action::Halt));
    assert_eq!(machine.apply(None), Ok(Action::Halt));
}

#[test]
fn apply_without_a_selection_fails_with_the_excerpt() {
    let mut machine = PatternMachine::new("AAGH and more than ten").unwrap();
    assert_eq!(
        machine.apply(None),
        Err(EngineError::UnintelligiblePattern { excerpt: "AAGHandmor".to_string() })
    );
    assert_eq!(machine.remaining(), "AAGHandmorethanten");
}

#[test]
fn a_pattern_machine_runs_from_where_it_stands() {
    let mut machine = PatternMachine::new("AH AAAAAH AAGH UGH AAGH").unwrap();
    assert_eq!(machine.step(), Ok(Action::Proceed));
    let run = machine.run(&[7, 8], 100);
    assert_eq!(run.outcome, Outcome::Finished);
    assert_eq!(run.output, vec![1u8, 7]);
    assert_eq!(run.consumed, 1);
    assert_eq!(run.tape.pointer(), 29_999);
    assert_eq!(run.tape.cell(29_999), Some(7));
}

#[test]
fn a_pattern_machine_gives_up_its_tape() {
    let mut machine = PatternMachine::new("AAAAAGH AAAAAH").unwrap();
    machine.step().unwrap();
    machine.step().unwrap();
    let tape = machine.into_tape();
    assert_eq!(tape.pointer(), 1);
    assert_eq!(tape.current(), 1);
}
