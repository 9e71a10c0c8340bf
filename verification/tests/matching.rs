use tape_dialects::matching::find_partner;
use tape_dialects::text::char_tokens;
use tape_dialects::Direction;

const ENTER: u32 = '{' as u32;
const EXIT: u32 = '}' as u32;

fn forward(code: &str, start: usize) -> Option<usize> {
    find_partner(&char_tokens(code), start, Direction::Forward, ENTER, EXIT)
}

fn backward(code: &str, start: usize) -> Option<usize> {
    find_partner(&char_tokens(code), start, Direction::Backward, ENTER, EXIT)
}

#[test]
fn adjacent_pair_matches() {
    assert_eq!(forward("{}", 0), Some(1));
    assert_eq!(backward("{}", 1), Some(0));
}

#[test]
fn nested_pairs_match_by_depth() {
    let code = "{{}{}}";
    assert_eq!(forward(code, 0), Some(5));
    assert_eq!(forward(code, 1), Some(2));
    assert_eq!(forward(code, 3), Some(4));
    assert_eq!(backward(code, 5), Some(0));
    assert_eq!(backward(code, 2), Some(1));
    assert_eq!(backward(code, 4), Some(3));
}

#[test]
fn other_symbols_do_not_count() {
    let code = "a{b{c}d}e";
    assert_eq!(forward(code, 1), Some(7));
    assert_eq!(forward(code, 3), Some(5));
    assert_eq!(backward(code, 7), Some(1));
    assert_eq!(backward(code, 5), Some(3));
}

#[test]
fn forward_scan_stops_at_first_closing_partner() {
    assert_eq!(forward("{}}", 0), Some(1));
    assert_eq!(forward("{*}*}", 0), Some(2));
}

#[test]
fn backward_scan_stops_at_nearest_opening_partner() {
    assert_eq!(backward("{{}", 2), Some(1));
    assert_eq!(backward("{*{*}", 4), Some(2));
}

#[test]
fn lone_entry_has_no_partner() {
    assert_eq!(forward("{", 0), None);
    assert_eq!(forward("{***", 0), None);
    assert_eq!(forward("}{", 1), None);
    assert_eq!(forward("{{}", 0), None);
}

#[test]
fn lone_exit_has_no_partner() {
    assert_eq!(backward("}", 0), None);
    assert_eq!(backward("***}", 3), None);
    assert_eq!(backward("}{", 0), None);
    assert_eq!(backward("{}}", 2), None);
}

#[test]
fn the_pair_of_symbols_is_a_parameter() {
    let tokens = char_tokens("][[]");
    let enter = ']' as u32;
    let exit = '[' as u32;
    assert_eq!(find_partner(&tokens, 0, Direction::Forward, enter, exit), Some(1));
    assert_eq!(find_partner(&tokens, 1, Direction::Backward, enter, exit), Some(0));
    assert_eq!(find_partner(&tokens, 3, Direction::Forward, enter, exit), None);
    assert_eq!(find_partner(&tokens, 2, Direction::Backward, enter, exit), None);
}
