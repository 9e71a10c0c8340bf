//! From source text to instruction streams.

use vstd::prelude::*;

verus! {

/// `String::push` appends the character to the end of the string.
pub assume_specification[ String::push ](s: &mut String, ch: char)
    ensures
        final(s)@ == old(s)@.push(ch),
;

/// The characters with the Unicode property White_Space.
pub open spec fn whitespace(c: char) -> bool {
    let n = c as u32;
    ||| 0x09 <= n <= 0x0D
    ||| n == 0x20
    ||| n == 0x85
    ||| n == 0xA0
    ||| n == 0x1680
    ||| 0x2000 <= n <= 0x200A
    ||| n == 0x2028
    ||| n == 0x2029
    ||| n == 0x202F
    ||| n == 0x205F
    ||| n == 0x3000
}

/// `text` without its whitespace characters, the others in their order.
pub open spec fn without_whitespace(text: Seq<char>) -> Seq<char> {
    text.filter(|c: char| !whitespace(c))
}

/// The code point of each character of `text`.
pub open spec fn code_points(text: Seq<char>) -> Seq<u32> {
    Seq::new(text.len(), |i: int| text[i] as u32)
}

/// Each byte of `bytes` as a symbol.
pub open spec fn byte_values(bytes: Seq<u8>) -> Seq<u32> {
    Seq::new(bytes.len(), |i: int| bytes[i] as u32)
}

/// Whether `c` has the Unicode property White_Space.
pub fn is_whitespace(c: char) -> (blank: bool)
    ensures
        blank == whitespace(c),
{
    let n = c as u32;
    (0x09 <= n && n <= 0x0D) || n == 0x20 || n == 0x85 || n == 0xA0 || n == 0x1680 || (0x2000 <= n
        && n <= 0x200A) || n == 0x2028 || n == 0x2029 || n == 0x202F || n == 0x205F || n == 0x3000
}

/// Removes every whitespace character from `code`.
pub fn strip_whitespace(code: &str) -> (stripped: String)
    ensures
        stripped@ == without_whitespace(code@),
{
    let mut stripped = String::new();
    proof {
        reveal(Seq::filter);
        assert(code@.take(0) =~= Seq::<char>::empty());
    }
    for c in it: code.chars()
        invariant
            it.seq() == code@,
            stripped@ == without_whitespace(code@.take(it.index() as int)),
    {
        proof {
            reveal(Seq::filter);
            let upto = code@.take(it.index() + 1);
            assert(upto.drop_last() =~= code@.take(it.index() as int));
            assert(upto.last() == c);
        }
        if !is_whitespace(c) {
            stripped.push(c);
        }
    }
    proof {
        assert(code@.take(code@.len() as int) =~= code@);
    }
    stripped
}

/// The instruction stream of a textual dialect: one symbol for each
/// character of `code`, its code point.
pub fn char_tokens(code: &str) -> (tokens: Vec<u32>)
    ensures
        tokens@ == code_points(code@),
{
    let mut tokens: Vec<u32> = Vec::new();
    for c in it: code.chars()
        invariant
            it.seq() == code@,
            tokens@.len() == it.index(),
            forall|i: int| 0 <= i < tokens@.len() ==> tokens@[i] == code@[i] as u32,
    {
        tokens.push(c as u32);
    }
    assert(tokens@ =~= code_points(code@));
    tokens
}

/// The instruction stream of the byte-encoded dialect: one symbol for each
/// byte of `bytes`, its value.
pub fn byte_tokens(bytes: &[u8]) -> (tokens: Vec<u32>)
    ensures
        tokens@ == byte_values(bytes@),
{
    let mut tokens: Vec<u32> = Vec::new();
    let mut i: usize = 0;
    while i < bytes.len()
        invariant
            i <= bytes@.len(),
            tokens@.len() == i,
            forall|k: int| 0 <= k < i ==> tokens@[k] == bytes@[k] as u32,
        decreases bytes@.len() - i,
    {
        tokens.push(bytes[i] as u32);
        i = i + 1;
    }
    assert(tokens@ =~= byte_values(bytes@));
    tokens
}

/// The character of one decimal digit.
pub open spec fn digit(d: int) -> char {
    if d == 0 {
        '0'
    } else if d == 1 {
        '1'
    } else if d == 2 {
        '2'
    } else if d == 3 {
        '3'
    } else if d == 4 {
        '4'
    } else if d == 5 {
        '5'
    } else if d == 6 {
        '6'
    } else if d == 7 {
        '7'
    } else if d == 8 {
        '8'
    } else {
        '9'
    }
}

/// `n` in decimal, without leading zeros.
pub open spec fn decimal(n: nat) -> Seq<char>
    decreases n,
{
    if n < 10 {
        seq![digit(n as int)]
    } else {
        decimal(n / 10).push(digit((n % 10) as int))
    }
}

/// The character of the decimal digit `d`.
fn digit_char(d: u64) -> (c: char)
    requires
        d < 10,
    ensures
        c == digit(d as int),
{
    if d == 0 {
        '0'
    } else if d == 1 {
        '1'
    } else if d == 2 {
        '2'
    } else if d == 3 {
        '3'
    } else if d == 4 {
        '4'
    } else if d == 5 {
        '5'
    } else if d == 6 {
        '6'
    } else if d == 7 {
        '7'
    } else if d == 8 {
        '8'
    } else {
        '9'
    }
}

/// The digits that stand before the lower ones once those are split off
/// and `n` is left: none where `n` is 0.
spec fn leading_digits(n: nat) -> Seq<char> {
    if n == 0 {
        Seq::empty()
    } else {
        decimal(n)
    }
}

/// Appends `value` in decimal to `text`.
pub fn push_decimal(text: &mut String, value: u64)
    ensures
        final(text)@ == old(text)@ + decimal(value as nat),
{
    let mut digits: Vec<char> = Vec::new();
    digits.push(digit_char(value % 10));
    let mut rest: u64 = value / 10;
    let ghost mut tail: Seq<char> = seq![digit((value % 10) as int)];
    assert(decimal(value as nat) =~= leading_digits(rest as nat) + tail);
    while rest > 0
        invariant
            digits@.len() == tail.len(),
            digits@.len() >= 1,
            forall|k: int| 0 <= k < digits@.len() ==> digits@[k] == tail[tail.len() - 1 - k],
            decimal(value as nat) == leading_digits(rest as nat) + tail,
        decreases rest,
    {
        let d = digit_char(rest % 10);
        digits.push(d);
        proof {
            let shorter = leading_digits((rest / 10) as nat);
            assert(leading_digits(rest as nat) =~= shorter + seq![d]);
            assert(shorter + seq![d] + tail =~= shorter + (seq![d] + tail));
            tail = seq![d] + tail;
        }
        rest = rest / 10;
    }
    let mut i: usize = digits.len();
    while i > 0
        invariant
            i <= digits@.len(),
            digits@.len() == tail.len(),
            forall|k: int| 0 <= k < digits@.len() ==> digits@[k] == tail[tail.len() - 1 - k],
            text@ == old(text)@ + tail.take(tail.len() - i),
        decreases i,
    {
        i = i - 1;
        text.push(digits[i]);
        assert(tail.take(tail.len() - i) =~= tail.take(tail.len() - i - 1).push(digits@[i as int]));
    }
    assert(tail.take(tail.len() as int) =~= tail);
}

} // verus!
