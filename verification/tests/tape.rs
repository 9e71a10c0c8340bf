use tape_dialects::{Action, Op, Tape, TAPE_SIZE};

#[test]
fn new_tape_is_blank() {
    let tape = Tape::new();
    assert_eq!(TAPE_SIZE, 30_000);
    assert_eq!(tape.pointer(), 0);
    assert_eq!(tape.current(), 0);
    assert_eq!(tape.cell(0), Some(0));
    assert_eq!(tape.cell(12_345), Some(0));
    assert_eq!(tape.cell(29_999), Some(0));
    assert_eq!(tape.cell(30_000), None);
}

#[test]
fn forward_wraps_from_last_cell_to_first() {
    let mut tape = Tape::new();
    for _ in 0..29_999 {
        tape.move_forward();
    }
    assert_eq!(tape.pointer(), 29_999);
    tape.move_forward();
    assert_eq!(tape.pointer(), 0);
}

#[test]
fn backward_wraps_from_first_cell_to_last() {
    let mut tape = Tape::new();
    tape.move_backward();
    assert_eq!(tape.pointer(), 29_999);
    tape.move_backward();
    assert_eq!(tape.pointer(), 29_998);
}

#[test]
fn thirty_thousand_moves_forward_return_to_start() {
    let mut tape = Tape::new();
    for _ in 0..17 {
        tape.move_forward();
    }
    for _ in 0..30_000 {
        tape.move_forward();
    }
    assert_eq!(tape.pointer(), 17);
}

#[test]
fn thirty_thousand_moves_backward_return_to_start() {
    let mut tape = Tape::new();
    for _ in 0..17 {
        tape.move_forward();
    }
    for _ in 0..30_000 {
        tape.move_backward();
    }
    assert_eq!(tape.pointer(), 17);
}

#[test]
fn increment_wraps_from_255_to_0() {
    let mut tape = Tape::new();
    for _ in 0..255 {
        tape.increment();
    }
    assert_eq!(tape.current(), 255);
    tape.increment();
    assert_eq!(tape.current(), 0);
}

#[test]
fn decrement_wraps_from_0_to_255() {
    let mut tape = Tape::new();
    tape.decrement();
    assert_eq!(tape.current(), 255);
    tape.decrement();
    assert_eq!(tape.current(), 254);
}

#[test]
fn increment_and_decrement_cancel_at_every_value() {
    let mut tape = Tape::new();
    for value in 0..=255u8 {
        tape.store(Some(value));
        tape.increment();
        tape.decrement();
        assert_eq!(tape.current(), value);
        tape.decrement();
        tape.increment();
        assert_eq!(tape.current(), value);
    }
}

#[test]
fn equal_counts_restore_the_cell_in_any_order() {
    let mut tape = Tape::new();
    tape.store(Some(200));
    for _ in 0..300 {
        tape.increment();
    }
    assert_eq!(tape.current(), 244);
    for round in 0..300 {
        tape.decrement();
        if round % 3 == 0 {
            tape.increment();
            tape.decrement();
        }
    }
    assert_eq!(tape.current(), 200);
}

#[test]
fn changes_touch_only_the_current_cell() {
    let mut tape = Tape::new();
    tape.move_forward();
    tape.increment();
    tape.increment();
    tape.move_forward();
    tape.decrement();
    assert_eq!(tape.cell(0), Some(0));
    assert_eq!(tape.cell(1), Some(2));
    assert_eq!(tape.cell(2), Some(255));
    assert_eq!(tape.cell(3), Some(0));
    assert_eq!(tape.pointer(), 2);
}

#[test]
fn store_keeps_the_byte_or_zero() {
    let mut tape = Tape::new();
    tape.store(Some(65));
    assert_eq!(tape.current(), 65);
    tape.store(None);
    assert_eq!(tape.current(), 0);
    tape.store(Some(0));
    assert_eq!(tape.current(), 0);
}

#[test]
fn perform_carries_out_tape_operations() {
    let mut tape = Tape::new();
    assert_eq!(tape.perform(Op::Increment), Action::Proceed);
    assert_eq!(tape.current(), 1);
    assert_eq!(tape.perform(Op::Decrement), Action::Proceed);
    assert_eq!(tape.current(), 0);
    assert_eq!(tape.perform(Op::MoveForward), Action::Proceed);
    assert_eq!(tape.pointer(), 1);
    assert_eq!(tape.perform(Op::MoveBackward), Action::Proceed);
    assert_eq!(tape.pointer(), 0);
}

#[test]
fn perform_asks_for_input_and_output() {
    let mut tape = Tape::new();
    tape.store(Some(33));
    assert_eq!(tape.perform(Op::OutputByte), Action::Emit(33));
    assert_eq!(tape.perform(Op::InputByte), Action::Read);
    assert_eq!(tape.perform(Op::LoopEnter), Action::Proceed);
    assert_eq!(tape.perform(Op::LoopExit), Action::Proceed);
    assert_eq!(tape.current(), 33);
    assert_eq!(tape.pointer(), 0);
}
