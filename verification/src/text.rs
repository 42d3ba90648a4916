//! Decimal text: what the digits of a number are, and how text is aligned.

use vstd::prelude::*;
use vstd::string::*;

verus! {

/// The character that stands for the decimal digit `d`.
pub open spec fn digit_char(d: nat) -> char {
    if d == 0 {
        '0'
    } else if d == 1 {
        '1'
    } else if d == 2 {
        '2'
    } else if d == 3 {
        '3'
    } else if d == 4 {
        '4'
    } else if d == 5 {
        '5'
    } else if d == 6 {
        '6'
    } else if d == 7 {
        '7'
    } else if d == 8 {
        '8'
    } else {
        '9'
    }
}

/// The decimal digits of `n`, most significant first, without leading zeros;
/// zero is the single digit `0`.
pub open spec fn decimal_text(n: nat) -> Seq<char>
    decreases n,
{
    if n < 10 {
        seq![digit_char(n)]
    } else {
        decimal_text(n / 10).push(digit_char(n % 10))
    }
}

/// The digit that `c` stands for; zero for a character that is no digit.
pub open spec fn digit_value(c: char) -> nat {
    if c == '1' {
        1
    } else if c == '2' {
        2
    } else if c == '3' {
        3
    } else if c == '4' {
        4
    } else if c == '5' {
        5
    } else if c == '6' {
        6
    } else if c == '7' {
        7
    } else if c == '8' {
        8
    } else if c == '9' {
        9
    } else {
        0
    }
}

/// Whether `c` is one of the ten decimal digits.
pub open spec fn is_digit(c: char) -> bool {
    digit_char(digit_value(c)) == c
}

/// Whether `text` holds decimal digits and nothing else.
pub open spec fn all_digits(text: Seq<char>) -> bool {
    forall|i: int| 0 <= i < text.len() ==> is_digit(#[trigger] text[i])
}

/// The number that a run of decimal digits stands for, most significant
/// digit first; the empty run stands for zero.
pub open spec fn decimal_value(text: Seq<char>) -> nat
    decreases text.len(),
{
    if text.len() == 0 {
        0
    } else {
        decimal_value(text.drop_last()) * 10 + digit_value(text.last())
    }
}

/// Ten to the power `e`.
pub open spec fn pow10(e: nat) -> nat
    decreases e,
{
    if e == 0 {
        1
    } else {
        10 * pow10((e - 1) as nat)
    }
}

/// The decimal text of a number is a run of at least one digit, and reading
/// it back gives the number.
pub proof fn lemma_decimal_text_reads_back(n: nat)
    ensures
        decimal_text(n).len() >= 1,
        all_digits(decimal_text(n)),
        decimal_value(decimal_text(n)) == n,
    decreases n,
{
    if n < 10 {
        let t = seq![digit_char(n)];
        assert(decimal_value(t.drop_last()) == 0);
    } else {
        lemma_decimal_text_reads_back(n / 10);
        let head = decimal_text(n / 10);
        let t = head.push(digit_char(n % 10));
        assert(t.drop_last() =~= head);
        assert forall|i: int| 0 <= i < t.len() implies is_digit(#[trigger] t[i]) by {
            if i < head.len() {
                assert(t[i] == head[i]);
            }
        }
    }
}

/// A number below ten to the `digits` is written with at most `digits`
/// digits.
pub proof fn lemma_decimal_text_len(n: nat, digits: nat)
    requires
        digits >= 1,
        n < pow10(digits),
    ensures
        decimal_text(n).len() <= digits,
    decreases n,
{
    if n >= 10 {
        assert(pow10(1) == 10) by {
            reveal_with_fuel(pow10, 2);
        }
        lemma_decimal_text_len(n / 10, (digits - 1) as nat);
    }
}

/// Zeros before a run of digits do not change the number it stands for.
pub proof fn lemma_leading_zeros_keep_value(count: nat, text: Seq<char>)
    ensures
        decimal_value(repeated('0', count) + text) == decimal_value(text),
    decreases text.len(), count,
{
    let whole = repeated('0', count) + text;
    if text.len() > 0 {
        assert(whole.drop_last() =~= repeated('0', count) + text.drop_last());
        lemma_leading_zeros_keep_value(count, text.drop_last());
    } else if count > 0 {
        assert(whole.drop_last() =~= repeated('0', (count - 1) as nat) + text);
        lemma_leading_zeros_keep_value((count - 1) as nat, text);
    }
}

/// `count` copies of `c`.
pub open spec fn repeated(c: char, count: nat) -> Seq<char> {
    Seq::new(count, |i: int| c)
}

/// `text` moved to the right edge of a field of `width` characters, the room
/// before it taken by `fill`; text that is wider than the field is unchanged.
pub open spec fn padded_left(text: Seq<char>, width: nat, fill: char) -> Seq<char> {
    if text.len() >= width {
        text
    } else {
        repeated(fill, (width - text.len()) as nat) + text
    }
}

/// Reads a decimal digit.
pub fn digit_of(c: char) -> (r: Option<u8>)
    ensures
        match r {
            Some(d) => is_digit(c) && d == digit_value(c),
            None => !is_digit(c),
        },
{
    if c == '0' {
        Some(0)
    } else if c == '1' {
        Some(1)
    } else if c == '2' {
        Some(2)
    } else if c == '3' {
        Some(3)
    } else if c == '4' {
        Some(4)
    } else if c == '5' {
        Some(5)
    } else if c == '6' {
        Some(6)
    } else if c == '7' {
        Some(7)
    } else if c == '8' {
        Some(8)
    } else if c == '9' {
        Some(9)
    } else {
        None
    }
}

/// The one-character text of a decimal digit.
fn digit_text(d: u32) -> (r: &'static str)
    requires
        d < 10,
    ensures
        r@ == seq![digit_char(d as nat)],
{
    proof {
        reveal_strlit("0");
        reveal_strlit("1");
        reveal_strlit("2");
        reveal_strlit("3");
        reveal_strlit("4");
        reveal_strlit("5");
        reveal_strlit("6");
        reveal_strlit("7");
        reveal_strlit("8");
        reveal_strlit("9");
    }
    let r = if d == 0 {
        "0"
    } else if d == 1 {
        "1"
    } else if d == 2 {
        "2"
    } else if d == 3 {
        "3"
    } else if d == 4 {
        "4"
    } else if d == 5 {
        "5"
    } else if d == 6 {
        "6"
    } else if d == 7 {
        "7"
    } else if d == 8 {
        "8"
    } else {
        "9"
    };
    r
}

/// Writes `value` in decimal.
pub fn decimal_string(value: u32) -> (r: String)
    ensures
        r@ == decimal_text(value as nat),
    decreases value,
{
    if value < 10 {
        String::from_str(digit_text(value))
    } else {
        let mut r = decimal_string(value / 10);
        r.append(digit_text(value % 10));
        r
    }
}

/// Right-aligns `text` in a field of `width` characters, filling with spaces.
pub fn align_right(text: &str, width: usize) -> (r: String)
    ensures
        r@ == padded_left(text@, width as nat, ' '),
{
    let len = text.unicode_len();
    let mut r = String::new();
    let mut filled: usize = len;
    proof {
        reveal_strlit(" ");
    }
    while filled < width
        invariant
            len == text@.len(),
            len <= filled,
            filled <= width || filled == len,
            r@ == repeated(' ', (filled - len) as nat),
            " "@ == seq![' '],
        decreases width - filled,
    {
        r.append(" ");
        filled = filled + 1;
    }
    r.append(text);
    r
}

} // verus!
