//! Currency amounts as display text in a chosen denomination.

use crate::error::LotteryError;
use crate::text::{
    all_digits, decimal_text, decimal_value, is_digit, lemma_decimal_text_len,
    lemma_decimal_text_reads_back, lemma_leading_zeros_keep_value, padded_left, pow10,
};
use crate::uint256::Uint256;
use ethers::types::U256;
use ethers::utils::format_units;
use vstd::prelude::*;
use vstd::string::*;

verus! {

/// A denomination of the native currency.
#[derive(Clone, Copy, Debug, PartialEq, Eq, Structural)]
pub enum DenominationUnit {
    /// The smallest unit.
    Wei,
    /// 10^9 wei.
    Gwei,
    /// 10^18 wei.
    Eth,
}

impl DenominationUnit {
    /// How many decimal digits of an amount in wei lie below one of this unit.
    pub open spec fn scale(self) -> nat {
        match self {
            DenominationUnit::Wei => 0,
            DenominationUnit::Gwei => 9,
            DenominationUnit::Eth => 18,
        }
    }

    /// The label that names this unit in text.
    pub open spec fn label_text(self) -> Seq<char> {
        match self {
            DenominationUnit::Wei => seq!['w', 'e', 'i'],
            DenominationUnit::Gwei => seq!['g', 'w', 'e', 'i'],
            DenominationUnit::Eth => seq!['e', 't', 'h'],
        }
    }

    /// How many decimal digits of an amount in wei lie below one of this unit.
    pub fn decimals(self) -> (r: u32)
        ensures
            r == self.scale(),
    {
        match self {
            DenominationUnit::Wei => 0,
            DenominationUnit::Gwei => 9,
            DenominationUnit::Eth => 18,
        }
    }

    /// The label that names this unit in text.
    pub fn label(self) -> (r: &'static str)
        ensures
            r@ == self.label_text(),
    {
        proof {
            reveal_strlit("wei");
            reveal_strlit("gwei");
            reveal_strlit("eth");
        }
        let r = match self {
            DenominationUnit::Wei => "wei",
            DenominationUnit::Gwei => "gwei",
            DenominationUnit::Eth => "eth",
        };
        r
    }

    /// The unit that `label` names. The label is matched letter for letter;
    /// any other text is refused and handed back in the error.
    pub fn from_label(label: &str) -> (r: Result<DenominationUnit, LotteryError>)
        ensures
            match unit_named(label@) {
                Some(unit) => r == Ok::<DenominationUnit, LotteryError>(unit),
                None => r matches Err(LotteryError::InvalidUnit(given)) && given@ == label@,
            },
    {
        let given = String::from_str(label);
        if given == DenominationUnit::Eth.label().to_owned() {
            Ok(DenominationUnit::Eth)
        } else if given == DenominationUnit::Gwei.label().to_owned() {
            Ok(DenominationUnit::Gwei)
        } else if given == DenominationUnit::Wei.label().to_owned() {
            Ok(DenominationUnit::Wei)
        } else {
            Err(LotteryError::InvalidUnit(given))
        }
    }
}

/// The unit whose label is `label`, if there is one.
pub open spec fn unit_named(label: Seq<char>) -> Option<DenominationUnit> {
    if label == DenominationUnit::Eth.label_text() {
        Some(DenominationUnit::Eth)
    } else if label == DenominationUnit::Gwei.label_text() {
        Some(DenominationUnit::Gwei)
    } else if label == DenominationUnit::Wei.label_text() {
        Some(DenominationUnit::Wei)
    } else {
        None
    }
}

/// `amount` written with exactly `decimals` digits after the point: the
/// whole part in decimal, a point, and the remainder with zeros put before it
/// up to `decimals` digits. With no decimals the remainder is the one digit `0`.
pub open spec fn fixed_point_text(amount: nat, decimals: nat) -> Seq<char> {
    decimal_text(amount / pow10(decimals)) + seq!['.'] + padded_left(
        decimal_text(amount % pow10(decimals)),
        decimals,
        '0',
    )
}

/// Calls `ethers::utils::format_units` on a `U256` built from the words of
/// `amount`, with `units` as the number of units. Trusted: for fewer than 77
/// units the call succeeds and gives the quotient by ten to the `units` in
/// decimal, a point, and the remainder in decimal, zero-filled on the left to
/// `units` characters.
#[verifier::external_body]
fn format_units_text(amount: Uint256, units: u32) -> (text: String)
    requires
        units < 77,
    ensures
        text@ == fixed_point_text(amount@, units as nat),
{
    format_units(U256([amount.w0, amount.w1, amount.w2, amount.w3]), units).unwrap()
}

/// `text` without the zeros at its end.
pub open spec fn without_trailing_zeros(text: Seq<char>) -> Seq<char>
    decreases text.len(),
{
    if text.len() > 0 && text.last() == '0' {
        without_trailing_zeros(text.drop_last())
    } else {
        text
    }
}

/// `text` without the point at its end, if it ends in one.
pub open spec fn without_trailing_point(text: Seq<char>) -> Seq<char> {
    if text.len() > 0 && text.last() == '.' {
        text.drop_last()
    } else {
        text
    }
}

/// A decimal number in its shortest form: the zeros that end the fraction
/// are dropped, and then the point, if nothing is left behind it. Text
/// without a point has no fraction and is unchanged.
pub open spec fn trimmed_decimal(text: Seq<char>) -> Seq<char> {
    if text.contains('.') {
        without_trailing_point(without_trailing_zeros(text))
    } else {
        text
    }
}

/// Brings a decimal number to its shortest form.
pub fn trim_decimal(text: &str) -> (r: String)
    ensures
        r@ == trimmed_decimal(text@),
{
    let len = text.unicode_len();
    let mut has_point = false;
    let mut seen: usize = 0;
    while seen < len
        invariant
            len == text@.len(),
            seen <= len,
            has_point <==> text@.subrange(0, seen as int).contains('.'),
        decreases len - seen,
    {
        let c = text.get_char(seen);
        proof {
            let before = text@.subrange(0, seen as int);
            let after = text@.subrange(0, seen + 1);
            if c == '.' {
                assert(after[seen as int] == '.');
            } else if after.contains('.') {
                let j = choose|j: int| 0 <= j < after.len() && after[j] == '.';
                assert(before[j] == '.');
            } else if before.contains('.') {
                let j = choose|j: int| 0 <= j < before.len() && before[j] == '.';
                assert(after[j] == '.');
            }
        }
        if c == '.' {
            has_point = true;
        }
        seen = seen + 1;
    }
    assert(text@.subrange(0, len as int) =~= text@);
    if !has_point {
        return String::from_str(text);
    }
    let mut end: usize = len;
    while end > 0 && text.get_char(end - 1) == '0'
        invariant
            len == text@.len(),
            end <= len,
            without_trailing_zeros(text@) == without_trailing_zeros(text@.subrange(0, end as int)),
        decreases end,
    {
        assert(text@.subrange(0, end as int).drop_last() =~= text@.subrange(0, end - 1));
        end = end - 1;
    }
    if end > 0 && text.get_char(end - 1) == '.' {
        end = end - 1;
    }
    String::from_str(text.substring_char(0, end))
}

/// The shortest decimal text of `amount` counted in units of ten to the
/// `decimals`.
pub open spec fn display_text(amount: nat, decimals: nat) -> Seq<char> {
    trimmed_decimal(fixed_point_text(amount, decimals))
}

/// What an amount of `amount` wei reads as in `unit`: the number, a space and
/// the unit's label.
pub open spec fn denominated_text(amount: nat, unit: DenominationUnit) -> Seq<char> {
    display_text(amount, unit.scale()) + seq![' '] + unit.label_text()
}

/// Writes an amount of wei in `unit`, with every significant digit and no
/// digit more.
pub fn format_amount(amount: Uint256, unit: DenominationUnit) -> (r: String)
    ensures
        r@ == denominated_text(amount@, unit),
{
    let full = format_units_text(amount, unit.decimals());
    let mut r = trim_decimal(full.as_str());
    proof {
        reveal_strlit(" ");
    }
    r.append(" ");
    r.append(unit.label());
    r
}

/// Writes an amount of wei in the unit that `to_denomination` names, or
/// refuses the label.
pub fn parse_to_denomination(input: Uint256, to_denomination: &str) -> (r: Result<
    String,
    LotteryError,
>)
    ensures
        match unit_named(to_denomination@) {
            Some(unit) => r matches Ok(text) && text@ == denominated_text(input@, unit),
            None => r matches Err(LotteryError::InvalidUnit(given)) && given@ == to_denomination@,
        },
{
    match DenominationUnit::from_label(to_denomination) {
        Ok(unit) => Ok(format_amount(input, unit)),
        Err(e) => Err(e),
    }
}

/// The amount, in the smallest unit, that a decimal number of units of ten to
/// the `decimals` stands for: the digits before the point count whole units,
/// the digits behind it count tenths, hundredths and so on.
pub open spec fn amount_of_text(text: Seq<char>, decimals: nat) -> nat {
    if text.contains('.') {
        let point = text.index_of('.');
        let whole = text.subrange(0, point);
        let fraction = text.subrange(point + 1, text.len() as int);
        decimal_value(whole) * pow10(decimals) + decimal_value(fraction) * pow10(
            (decimals - fraction.len()) as nat,
        )
    } else {
        decimal_value(text) * pow10(decimals)
    }
}

/// The amount of wei that text of the form of [`denominated_text`] stands
/// for: its number, without the space and the label behind it, read in `unit`.
pub open spec fn amount_of_denominated(text: Seq<char>, unit: DenominationUnit) -> nat {
    amount_of_text(text.subrange(0, text.len() - unit.label_text().len() - 1), unit.scale())
}

proof fn lemma_pow10_positive(e: nat)
    ensures
        pow10(e) > 0,
    decreases e,
{
    if e > 0 {
        lemma_pow10_positive((e - 1) as nat);
    }
}

/// Zeros are dropped from the end of `tail` only, where what stands before
/// it does not end in a zero.
proof fn lemma_trailing_zeros_stop(prefix: Seq<char>, tail: Seq<char>)
    requires
        prefix.len() > 0,
        prefix.last() != '0',
    ensures
        without_trailing_zeros(prefix + tail) == prefix + without_trailing_zeros(tail),
    decreases tail.len(),
{
    if tail.len() > 0 && tail.last() == '0' {
        assert((prefix + tail).drop_last() =~= prefix + tail.drop_last());
        lemma_trailing_zeros_stop(prefix, tail.drop_last());
    }
}

/// What is left of `text` without its trailing zeros is its beginning, does
/// not end in a zero, and stands for the same number once the dropped zeros
/// are counted as powers of ten.
proof fn lemma_without_trailing_zeros(text: Seq<char>)
    ensures
        without_trailing_zeros(text).len() <= text.len(),
        without_trailing_zeros(text) == text.subrange(
            0,
            without_trailing_zeros(text).len() as int,
        ),
        without_trailing_zeros(text).len() > 0 ==> without_trailing_zeros(text).last() != '0',
        decimal_value(text) == decimal_value(without_trailing_zeros(text)) * pow10(
            (text.len() - without_trailing_zeros(text).len()) as nat,
        ),
    decreases text.len(),
{
    if text.len() > 0 && text.last() == '0' {
        let shorter = text.drop_last();
        lemma_without_trailing_zeros(shorter);
        let kept = without_trailing_zeros(shorter);
        let dropped = (shorter.len() - kept.len()) as nat;
        assert(decimal_value(kept) * pow10(dropped) * 10 == decimal_value(kept) * (10 * pow10(
            dropped,
        ))) by (nonlinear_arith);
    } else {
        assert(decimal_value(text) * 1 == decimal_value(text));
    }
}

/// The shape of the shortest form: the whole part alone where the amount is
/// a whole number of units, else the whole part, a point and the fraction's
/// digits up to the last one that is not zero. So it is never empty, ends in
/// a digit and never in a point, and behind a point it does not end in a zero.
pub proof fn lemma_display_text_shape(amount: nat, decimals: nat)
    ensures
        display_text(amount, decimals).len() >= 1,
        is_digit(display_text(amount, decimals).last()),
        display_text(amount, decimals).contains('.') ==> display_text(amount, decimals).last()
            != '0',
        amount % pow10(decimals) == 0 ==> display_text(amount, decimals) == decimal_text(
            amount / pow10(decimals),
        ),
        amount % pow10(decimals) != 0 ==> display_text(amount, decimals) == decimal_text(
            amount / pow10(decimals),
        ) + seq!['.'] + without_trailing_zeros(
            padded_left(decimal_text(amount % pow10(decimals)), decimals, '0'),
        ),
{
    lemma_pow10_positive(decimals);
    let unit = pow10(decimals);
    let part = amount % unit;
    let whole = decimal_text(amount / unit);
    let digits = decimal_text(part);
    let fraction = padded_left(digits, decimals, '0');
    let head = whole + seq!['.'];
    let full = fixed_point_text(amount, decimals);
    assert(full[whole.len() as int] == '.');
    lemma_trailing_zeros_stop(head, fraction);
    lemma_without_trailing_zeros(fraction);
    lemma_decimal_text_reads_back(part);
    let kept = without_trailing_zeros(fraction);
    if digits.len() < decimals {
        lemma_leading_zeros_keep_value((decimals - digits.len()) as nat, digits);
    }
    if part == 0 {
        // the fraction holds zeros alone, so nothing of it is kept, and the
        // point goes too
        assert(kept.len() == 0) by {
            reveal_with_fuel(decimal_text, 2);
        }
        lemma_decimal_text_reads_back(amount / unit);
        if whole.contains('.') {
            let i = choose|i: int| 0 <= i < whole.len() && whole[i] == '.';
            assert(is_digit(whole[i]));
        }
    } else {
        // the fraction stands for a number that is not zero, so a digit of
        // it is kept
        assert(kept.len() > 0) by {
            assert(0 * pow10((fraction.len() - kept.len()) as nat) == 0);
        }
    }
}

/// Reading a formatted amount back gives the amount, and formatting that
/// again gives the same text: formatting loses no digit, in any denomination.
pub proof fn lemma_format_round_trip(amount: nat, unit: DenominationUnit)
    ensures
        amount_of_denominated(denominated_text(amount, unit), unit) == amount,
        denominated_text(amount_of_denominated(denominated_text(amount, unit), unit), unit)
            == denominated_text(amount, unit),
{
    lemma_number_round_trip(amount, unit.scale());
    let number = display_text(amount, unit.scale());
    let text = denominated_text(amount, unit);
    assert(text.subrange(0, text.len() - unit.label_text().len() - 1) =~= number);
}

/// Reading the shortest form of an amount back gives the amount, whatever
/// the number of decimals.
pub proof fn lemma_number_round_trip(amount: nat, decimals: nat)
    ensures
        amount_of_text(display_text(amount, decimals), decimals) == amount,
{
    lemma_pow10_positive(decimals);
    lemma_display_text_shape(amount, decimals);
    let unit = pow10(decimals);
    let part = amount % unit;
    let whole = decimal_text(amount / unit);
    let digits = decimal_text(part);
    let fraction = padded_left(digits, decimals, '0');
    let kept = without_trailing_zeros(fraction);
    let text = display_text(amount, decimals);
    lemma_decimal_text_reads_back(amount / unit);
    lemma_decimal_text_reads_back(part);
    vstd::arithmetic::div_mod::lemma_fundamental_div_mod(amount as int, unit as int);
    assert((amount / unit) * unit == unit * (amount / unit)) by (nonlinear_arith);
    if part == 0 {
        // the text is the whole part, which holds no point
        if text.contains('.') {
            let i = choose|i: int| 0 <= i < text.len() && text[i] == '.';
            assert(is_digit(whole[i]));
        }
    } else {
        assert(decimals >= 1);
        lemma_decimal_text_len(part, decimals);
        if digits.len() < decimals {
            lemma_leading_zeros_keep_value((decimals - digits.len()) as nat, digits);
        }
        lemma_without_trailing_zeros(fraction);
        // the one point of the text stands behind the whole part
        assert(text[whole.len() as int] == '.');
        let point = text.index_of('.');
        assert(point == whole.len());
        assert(text.subrange(0, point) =~= whole);
        assert(text.subrange(point + 1, text.len() as int) =~= kept);
    }
}

/// Nothing reads as `0` in every denomination: never as an empty number, nor
/// as a bare point.
pub proof fn lemma_zero_amount(unit: DenominationUnit)
    ensures
        display_text(0, unit.scale()) == seq!['0'],
        denominated_text(0, unit) == seq!['0', ' '] + unit.label_text(),
{
    lemma_pow10_positive(unit.scale());
    lemma_display_text_shape(0, unit.scale());
}

} // verus!
