//! Loop matching: finding the partner of a bracket across nested loops.
//!
//! A scan starts beside a bracket with a nesting counter of 1. Walking
//! forward, each loop entry raises the counter and each loop exit lowers it;
//! walking backward it is the other way round. The partner is the first
//! token at which the counter reaches 0.

use crate::ops::Direction;
use vstd::prelude::*;

verus! {

/// What one token adds to the nesting depth: 1 for a loop entry, -1 for a
/// loop exit, 0 for anything else.
pub open spec fn weight(token: u32, enter: u32, exit: u32) -> int {
    if token == enter {
        1
    } else if token == exit {
        -1
    } else {
        0
    }
}

/// Loop entries minus loop exits among `tokens[from..to)`.
pub open spec fn depth(tokens: Seq<u32>, enter: u32, exit: u32, from: int, to: int) -> int
    decreases to - from,
{
    if to <= from {
        0
    } else {
        depth(tokens, enter, exit, from, to - 1) + weight(tokens[to - 1], enter, exit)
    }
}

/// No prefix of `tokens[from..to)` holds more loop exits than entries.
pub open spec fn never_below(tokens: Seq<u32>, enter: u32, exit: u32, from: int, to: int) -> bool {
    forall|e: int| from <= e <= to ==> #[trigger] depth(tokens, enter, exit, from, e) >= 0
}

/// No suffix of `tokens[from..to)` holds more loop entries than exits.
pub open spec fn never_above(tokens: Seq<u32>, enter: u32, exit: u32, from: int, to: int) -> bool {
    forall|b: int| from <= b <= to ==> #[trigger] depth(tokens, enter, exit, b, to) <= 0
}

/// `j` is where a forward scan from `start` stops: the first index after
/// `start` at which the exits outnumber the entries met since `start`.
pub open spec fn closes_at(tokens: Seq<u32>, enter: u32, exit: u32, start: int, j: int) -> bool {
    &&& start < j < tokens.len()
    &&& depth(tokens, enter, exit, start + 1, j + 1) == -1
    &&& never_below(tokens, enter, exit, start + 1, j)
}

/// `j` is where a backward scan from `start` stops: the last index before
/// `start` at which the entries outnumber the exits met down from `start`.
pub open spec fn opens_at(tokens: Seq<u32>, enter: u32, exit: u32, start: int, j: int) -> bool {
    &&& 0 <= j < start
    &&& depth(tokens, enter, exit, j, start) == 1
    &&& never_above(tokens, enter, exit, j + 1, start)
}

/// `j` is the partner that a scan from `start` in `direction` stops at.
pub open spec fn is_partner(
    tokens: Seq<u32>,
    enter: u32,
    exit: u32,
    start: int,
    direction: Direction,
    j: int,
) -> bool {
    match direction {
        Direction::Forward => closes_at(tokens, enter, exit, start, j),
        Direction::Backward => opens_at(tokens, enter, exit, start, j),
    }
}

/// The partner of the bracket at `start`, or `None` where the scan leaves
/// the stream without finding one.
pub open spec fn partner(
    tokens: Seq<u32>,
    enter: u32,
    exit: u32,
    start: int,
    direction: Direction,
) -> Option<int> {
    if exists|j: int| is_partner(tokens, enter, exit, start, direction, j) {
        Some(choose|j: int| is_partner(tokens, enter, exit, start, direction, j))
    } else {
        None
    }
}

/// Every loop exit has an entry before it and every entry is closed by the
/// end: the depth of no prefix is negative and that of the whole stream is 0.
pub open spec fn well_nested(tokens: Seq<u32>, enter: u32, exit: u32) -> bool {
    &&& depth(tokens, enter, exit, 0, tokens.len() as int) == 0
    &&& never_below(tokens, enter, exit, 0, tokens.len() as int)
}

/// Depth is additive over adjacent ranges.
pub proof fn lemma_depth_split(
    tokens: Seq<u32>,
    enter: u32,
    exit: u32,
    from: int,
    mid: int,
    to: int,
)
    requires
        from <= mid <= to,
    ensures
        depth(tokens, enter, exit, from, to) == depth(tokens, enter, exit, from, mid) + depth(
            tokens,
            enter,
            exit,
            mid,
            to,
        ),
    decreases to - mid,
{
    if mid < to {
        lemma_depth_split(tokens, enter, exit, from, mid, to - 1);
    }
}

/// A scan stops at one place at most.
pub proof fn lemma_partner_unique(
    tokens: Seq<u32>,
    enter: u32,
    exit: u32,
    start: int,
    direction: Direction,
    j: int,
)
    requires
        is_partner(tokens, enter, exit, start, direction, j),
    ensures
        partner(tokens, enter, exit, start, direction) == Some(j),
{
    let k = choose|k: int| is_partner(tokens, enter, exit, start, direction, k);
    assert(is_partner(tokens, enter, exit, start, direction, k));
    match direction {
        Direction::Forward => {
            if k < j {
                assert(depth(tokens, enter, exit, start + 1, k + 1) >= 0);
            }
            if j < k {
                assert(depth(tokens, enter, exit, start + 1, j + 1) >= 0);
            }
        },
        Direction::Backward => {
            if k < j {
                assert(depth(tokens, enter, exit, j, start) <= 0);
            }
            if j < k {
                assert(depth(tokens, enter, exit, k, start) <= 0);
            }
        },
    }
}

/// Walks forward from `start` until the nesting counter reaches 0.
fn scan_forward(tokens: &[u32], start: usize, enter: u32, exit: u32) -> (found: Option<usize>)
    requires
        start < tokens@.len(),
        enter != exit,
    ensures
        match found {
            Some(j) => closes_at(tokens@, enter, exit, start as int, j as int),
            None => forall|j: int| !closes_at(tokens@, enter, exit, start as int, j),
        },
{
    let len = tokens.len();
    let mut nesting: usize = 1;
    let mut pos: usize = start;
    while pos + 1 < len
        invariant
            len == tokens@.len(),
            start <= pos < len,
            1 <= nesting <= pos - start + 1,
            nesting == 1 + depth(tokens@, enter, exit, start + 1, pos + 1),
            never_below(tokens@, enter, exit, start + 1, pos + 1),
        decreases tokens@.len() - pos,
    {
        pos = pos + 1;
        let token = tokens[pos];
        if token == enter {
            nesting = nesting + 1;
        } else if token == exit {
            nesting = nesting - 1;
        }
        if nesting == 0 {
            return Some(pos);
        }
    }
    assert forall|j: int| !closes_at(tokens@, enter, exit, start as int, j) by {
        if start < j < tokens@.len() {
            assert(depth(tokens@, enter, exit, start + 1, j + 1) >= 0);
        }
    }
    None
}

/// Walks backward from `start` until the nesting counter reaches 0.
fn scan_backward(tokens: &[u32], start: usize, enter: u32, exit: u32) -> (found: Option<usize>)
    requires
        start < tokens@.len(),
        enter != exit,
    ensures
        match found {
            Some(j) => opens_at(tokens@, enter, exit, start as int, j as int),
            None => forall|j: int| !opens_at(tokens@, enter, exit, start as int, j),
        },
{
    let mut nesting: usize = 1;
    let mut pos: usize = start;
    while pos > 0
        invariant
            enter != exit,
            pos <= start < tokens@.len(),
            1 <= nesting <= start - pos + 1,
            nesting == 1 - depth(tokens@, enter, exit, pos as int, start as int),
            never_above(tokens@, enter, exit, pos as int, start as int),
        decreases pos,
    {
        pos = pos - 1;
        let token = tokens[pos];
        proof {
            lemma_depth_split(tokens@, enter, exit, pos as int, pos + 1, start as int);
            assert(depth(tokens@, enter, exit, pos as int, pos as int) == 0);
            assert(depth(tokens@, enter, exit, pos as int, pos + 1) == weight(token, enter, exit));
        }
        if token == exit {
            nesting = nesting + 1;
        } else if token == enter {
            nesting = nesting - 1;
        }
        if nesting == 0 {
            return Some(pos);
        }
    }
    assert forall|j: int| !opens_at(tokens@, enter, exit, start as int, j) by {
        if 0 <= j < start {
            assert(depth(tokens@, enter, exit, j, start as int) <= 0);
        }
    }
    None
}

/// Finds the partner of the bracket at `start`.
///
/// `enter` and `exit` are the dialect's two loop symbols. The result is the
/// index at which the scan's nesting counter first reaches 0, or `None` where
/// the scan runs past the end of the stream (forward) or before its first
/// token (backward).
pub fn find_partner(
    tokens: &[u32],
    start: usize,
    direction: Direction,
    enter: u32,
    exit: u32,
) -> (found: Option<usize>)
    requires
        start < tokens@.len(),
        enter != exit,
    ensures
        match found {
            Some(j) => partner(tokens@, enter, exit, start as int, direction) == Some(j as int),
            None => partner(tokens@, enter, exit, start as int, direction) is None,
        },
        found matches Some(j) ==> j < tokens@.len() && is_partner(
            tokens@,
            enter,
            exit,
            start as int,
            direction,
            j as int,
        ),
{
    let found = match direction {
        Direction::Forward => scan_forward(tokens, start, enter, exit),
        Direction::Backward => scan_backward(tokens, start, enter, exit),
    };
    proof {
        match found {
            Some(j) => {
                lemma_partner_unique(tokens@, enter, exit, start as int, direction, j as int);
            },
            None => {
                assert forall|j: int| !is_partner(
                    tokens@,
                    enter,
                    exit,
                    start as int,
                    direction,
                    j,
                ) by {}
            },
        }
    }
    found
}

/// Where the depth of a range is negative, there is a first place at which
/// it drops below 0, and the token there is a loop exit.
proof fn lemma_first_drop(tokens: Seq<u32>, enter: u32, exit: u32, from: int, cur: int, to: int)
    requires
        enter != exit,
        0 <= from <= cur <= to <= tokens.len(),
        never_below(tokens, enter, exit, from, cur),
        depth(tokens, enter, exit, from, to) < 0,
    ensures
        exists|j: int|
            cur <= j < to && tokens[j] == exit && #[trigger] closes_at(
                tokens,
                enter,
                exit,
                from - 1,
                j,
            ),
    decreases to - cur,
{
    assert(depth(tokens, enter, exit, from, cur) >= 0);
    if depth(tokens, enter, exit, from, cur + 1) < 0 {
        assert(closes_at(tokens, enter, exit, from - 1, cur));
    } else {
        assert(never_below(tokens, enter, exit, from, cur + 1));
        lemma_first_drop(tokens, enter, exit, from, cur + 1, to);
    }
}

/// Where the depth of a range is positive, there is a last place from which
/// it is above 0, and the token there is a loop entry.
proof fn lemma_last_rise(tokens: Seq<u32>, enter: u32, exit: u32, from: int, cur: int, to: int)
    requires
        enter != exit,
        0 <= from <= cur <= to <= tokens.len(),
        never_above(tokens, enter, exit, cur, to),
        depth(tokens, enter, exit, from, to) > 0,
    ensures
        exists|j: int|
            from <= j < cur && tokens[j] == enter && #[trigger] opens_at(
                tokens,
                enter,
                exit,
                to,
                j,
            ),
    decreases cur - from,
{
    assert(depth(tokens, enter, exit, cur, to) <= 0);
    assert(from < cur);
    lemma_depth_split(tokens, enter, exit, cur - 1, cur, to);
    assert(depth(tokens, enter, exit, cur - 1, cur - 1) == 0);
    assert(depth(tokens, enter, exit, cur - 1, cur) == weight(tokens[cur - 1], enter, exit));
    if depth(tokens, enter, exit, cur - 1, to) > 0 {
        assert(opens_at(tokens, enter, exit, to, cur - 1));
    } else {
        assert(never_above(tokens, enter, exit, cur - 1, to));
        lemma_last_rise(tokens, enter, exit, from, cur - 1, to);
    }
}

/// In a well-nested stream every loop entry has a partner, and the partner
/// is a loop exit.
pub proof fn lemma_entry_has_partner(tokens: Seq<u32>, enter: u32, exit: u32, start: int)
    requires
        enter != exit,
        well_nested(tokens, enter, exit),
        0 <= start < tokens.len(),
        tokens[start] == enter,
    ensures
        partner(tokens, enter, exit, start, Direction::Forward) is Some,
        closes_at(
            tokens,
            enter,
            exit,
            start,
            partner(tokens, enter, exit, start, Direction::Forward)->0,
        ),
        tokens[partner(tokens, enter, exit, start, Direction::Forward)->0] == exit,
{
    let len = tokens.len() as int;
    lemma_depth_split(tokens, enter, exit, 0, start + 1, len);
    assert(depth(tokens, enter, exit, 0, start) >= 0);
    assert(depth(tokens, enter, exit, start + 1, start + 1) == 0);
    lemma_first_drop(tokens, enter, exit, start + 1, start + 1, len);
    let j = choose|j: int|
        start + 1 <= j < len && tokens[j] == exit && #[trigger] closes_at(
            tokens,
            enter,
            exit,
            start,
            j,
        );
    lemma_partner_unique(tokens, enter, exit, start, Direction::Forward, j);
}

/// In a well-nested stream every loop exit has a partner, and the partner
/// is a loop entry.
pub proof fn lemma_exit_has_partner(tokens: Seq<u32>, enter: u32, exit: u32, start: int)
    requires
        enter != exit,
        well_nested(tokens, enter, exit),
        0 <= start < tokens.len(),
        tokens[start] == exit,
    ensures
        partner(tokens, enter, exit, start, Direction::Backward) is Some,
        opens_at(
            tokens,
            enter,
            exit,
            start,
            partner(tokens, enter, exit, start, Direction::Backward)->0,
        ),
        tokens[partner(tokens, enter, exit, start, Direction::Backward)->0] == enter,
{
    assert(depth(tokens, enter, exit, 0, start + 1) >= 0);
    assert(depth(tokens, enter, exit, start, start) == 0);
    lemma_last_rise(tokens, enter, exit, 0, start, start);
    let j = choose|j: int|
        0 <= j < start && tokens[j] == enter && #[trigger] opens_at(tokens, enter, exit, start, j);
    lemma_partner_unique(tokens, enter, exit, start, Direction::Backward, j);
}

/// Partners are mutual, forward to backward: where the scan from a loop
/// entry at `i` stops at `j`, the token at `j` is a loop exit and the scan
/// back from it stops at `i`.
pub proof fn lemma_exit_scans_back_to_entry(
    tokens: Seq<u32>,
    enter: u32,
    exit: u32,
    i: int,
    j: int,
)
    requires
        enter != exit,
        0 <= i,
        tokens[i] == enter,
        closes_at(tokens, enter, exit, i, j),
    ensures
        tokens[j] == exit,
        opens_at(tokens, enter, exit, j, i),
{
    assert(depth(tokens, enter, exit, i + 1, j) >= 0);
    lemma_depth_split(tokens, enter, exit, i, i + 1, j);
    assert(depth(tokens, enter, exit, i, i) == 0);
    assert(depth(tokens, enter, exit, i, i + 1) == 1);
    assert forall|b: int| i + 1 <= b <= j implies #[trigger] depth(tokens, enter, exit, b, j)
        <= 0 by {
        lemma_depth_split(tokens, enter, exit, i + 1, b, j);
        assert(depth(tokens, enter, exit, i + 1, b) >= 0);
    }
}

/// Partners are mutual, backward to forward: where the scan back from a
/// loop exit at `j` stops at `i`, the token at `i` is a loop entry and the
/// scan forward from it stops at `j`.
pub proof fn lemma_entry_scans_on_to_exit(
    tokens: Seq<u32>,
    enter: u32,
    exit: u32,
    i: int,
    j: int,
)
    requires
        enter != exit,
        j < tokens.len(),
        tokens[j] == exit,
        opens_at(tokens, enter, exit, j, i),
    ensures
        tokens[i] == enter,
        closes_at(tokens, enter, exit, i, j),
{
    assert(depth(tokens, enter, exit, i + 1, j) <= 0);
    lemma_depth_split(tokens, enter, exit, i, i + 1, j);
    assert(depth(tokens, enter, exit, i, i) == 0);
    assert(depth(tokens, enter, exit, i, i + 1) == weight(tokens[i], enter, exit));
    assert forall|e: int| i + 1 <= e <= j implies #[trigger] depth(tokens, enter, exit, i + 1, e)
        >= 0 by {
        lemma_depth_split(tokens, enter, exit, i + 1, e, j);
        assert(depth(tokens, enter, exit, e, j) <= 0);
    }
}

/// A loop entry with no loop exit anywhere after it has no partner.
pub proof fn lemma_lone_entry_has_no_partner(tokens: Seq<u32>, enter: u32, exit: u32, start: int)
    requires
        0 <= start < tokens.len(),
        forall|k: int| start < k < tokens.len() ==> tokens[k] != exit,
    ensures
        partner(tokens, enter, exit, start, Direction::Forward) is None,
{
    assert forall|j: int| !closes_at(tokens, enter, exit, start, j) by {
        if start < j < tokens.len() {
            lemma_depth_without_exit(tokens, enter, exit, start + 1, j + 1);
        }
    }
}

/// A loop exit with no loop entry anywhere before it has no partner.
pub proof fn lemma_lone_exit_has_no_partner(tokens: Seq<u32>, enter: u32, exit: u32, start: int)
    requires
        0 <= start < tokens.len(),
        enter != exit,
        forall|k: int| 0 <= k < start ==> tokens[k] != enter,
    ensures
        partner(tokens, enter, exit, start, Direction::Backward) is None,
{
    assert forall|j: int| !opens_at(tokens, enter, exit, start, j) by {
        if 0 <= j < start {
            lemma_depth_without_entry(tokens, enter, exit, j, start);
        }
    }
}

/// A range without loop exits has no negative depth.
proof fn lemma_depth_without_exit(tokens: Seq<u32>, enter: u32, exit: u32, from: int, to: int)
    requires
        0 <= from,
        to <= tokens.len(),
        forall|k: int| from <= k < to ==> tokens[k] != exit,
    ensures
        depth(tokens, enter, exit, from, to) >= 0,
    decreases to - from,
{
    if from < to {
        lemma_depth_without_exit(tokens, enter, exit, from, to - 1);
    }
}

/// A range without loop entries has no positive depth.
proof fn lemma_depth_without_entry(tokens: Seq<u32>, enter: u32, exit: u32, from: int, to: int)
    requires
        0 <= from,
        to <= tokens.len(),
        forall|k: int| from <= k < to ==> tokens[k] != enter,
    ensures
        depth(tokens, enter, exit, from, to) <= 0,
    decreases to - from,
{
    if from < to {
        lemma_depth_without_entry(tokens, enter, exit, from, to - 1);
    }
}

} // verus!
