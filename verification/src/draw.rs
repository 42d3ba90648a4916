//! The packed result of a draw, taken apart into main numbers and bonus rows.

use crate::error::LotteryError;
use crate::text::{align_right, decimal_string, decimal_text, padded_left, repeated};
use crate::uint256::{decimal_string_of, Uint256};
use vstd::prelude::*;
use vstd::string::*;

verus! {

/// How many entries the packed result of a round has.
pub const RESULT_LEN: usize = 35;

/// The prize multiplier of each position of the packed result. The main
/// numbers carry none; the bonus positions run from the rarest prize down.
pub const PRIZE_MULTIPLIERS: [u32; 35] = [
    0, 0, 0, 0, 0, 10000, 7500, 5000, 2500, 1000, 500, 300, 200, 150, 100, 90, 80, 70, 60, 50,
    40, 30, 25, 20, 15, 10, 9, 8, 7, 6, 5, 4, 3, 2, 1,
];

/// A bonus number and the multiplier that its position carries.
#[derive(Clone, Copy, Debug, PartialEq, Eq, Structural)]
pub struct BonusEntry {
    pub multiplier: u32,
    pub number: Uint256,
}

/// The three bonus entries that share an offset in their blocks.
#[derive(Clone, Copy, Debug, PartialEq, Eq, Structural)]
pub struct BonusRow {
    pub left: BonusEntry,
    pub middle: BonusEntry,
    pub right: BonusEntry,
}

/// One round's draw: the main numbers, and the bonus numbers row by row.
#[derive(Clone, Copy, Debug, PartialEq, Eq)]
pub struct DrawReport {
    pub main_numbers: [Uint256; 5],
    pub rows: [BonusRow; 10],
}

/// The entry at position `index` of a packed result.
pub open spec fn entry_at(result: Seq<Uint256>, index: int) -> BonusEntry {
    BonusEntry { multiplier: PRIZE_MULTIPLIERS[index], number: result[index] }
}

/// Row `k` of a packed result: the entries at offset `k` of the three blocks
/// that follow the main numbers.
pub open spec fn row_at(result: Seq<Uint256>, k: int) -> BonusRow {
    BonusRow {
        left: entry_at(result, 5 + k),
        middle: entry_at(result, 15 + k),
        right: entry_at(result, 25 + k),
    }
}

impl DrawReport {
    /// Whether this report holds the packed result `result`: its main numbers
    /// are the first five entries, and its rows pair the thirty that follow
    /// with their multipliers.
    pub open spec fn holds(&self, result: Seq<Uint256>) -> bool {
        &&& forall|i: int| 0 <= i < 5 ==> #[trigger] self.main_numbers[i] == result[i]
        &&& forall|k: int| 0 <= k < 10 ==> #[trigger] self.rows[k] == row_at(result, k)
    }
}

fn entry(result: &[Uint256], index: usize) -> (r: BonusEntry)
    requires
        result@.len() == 35,
        index < 35,
    ensures
        r == entry_at(result@, index as int),
{
    BonusEntry { multiplier: PRIZE_MULTIPLIERS[index], number: result[index] }
}

fn row(result: &[Uint256], k: usize) -> (r: BonusRow)
    requires
        result@.len() == 35,
        k < 10,
    ensures
        r == row_at(result@, k as int),
{
    BonusRow {
        left: entry(result, 5 + k),
        middle: entry(result, 15 + k),
        right: entry(result, 25 + k),
    }
}

/// Takes the packed result of a round apart. A result that does not have
/// exactly 35 entries is refused; nothing of it is read.
pub fn decode(result: &[Uint256]) -> (r: Result<DrawReport, LotteryError>)
    ensures
        result@.len() == 35 ==> (r matches Ok(report) && report.holds(result@) && forall|k: int|
            0 <= k < 10 ==> (#[trigger] report.rows[k]).left.multiplier == PRIZE_MULTIPLIERS[5
                + k]),
        result@.len() != 35 ==> (r matches Err(LotteryError::MalformedResult(len)) && len
            == result@.len()),
{
    if result.len() != RESULT_LEN {
        return Err(LotteryError::MalformedResult(result.len()));
    }
    let main_numbers = [result[0], result[1], result[2], result[3], result[4]];
    let rows = [
        row(result, 0),
        row(result, 1),
        row(result, 2),
        row(result, 3),
        row(result, 4),
        row(result, 5),
        row(result, 6),
        row(result, 7),
        row(result, 8),
        row(result, 9),
    ];
    Ok(DrawReport { main_numbers, rows })
}

/// One entry as text: the multiplier, right-aligned in `width` characters,
/// a colon and a space, and the number, right-aligned in two characters.
pub open spec fn entry_text(entry: BonusEntry, width: nat) -> Seq<char> {
    padded_left(decimal_text(entry.multiplier as nat), width, ' ') + seq![':', ' '] + padded_left(
        decimal_text(entry.number@),
        2,
        ' ',
    )
}

/// One row as a line of text: the three entries, five spaces between them,
/// the left multiplier five characters wide and the other two two.
pub open spec fn row_text(row: BonusRow) -> Seq<char> {
    entry_text(row.left, 5) + repeated(' ', 5) + entry_text(row.middle, 2) + repeated(' ', 5)
        + entry_text(row.right, 2) + seq!['\n']
}

/// The main numbers in decimal, one space between one and the next.
pub open spec fn main_text(numbers: Seq<Uint256>) -> Seq<char>
    decreases numbers.len(),
{
    if numbers.len() == 0 {
        Seq::empty()
    } else if numbers.len() == 1 {
        decimal_text(numbers[0]@)
    } else {
        main_text(numbers.drop_last()) + seq![' '] + decimal_text(numbers.last()@)
    }
}

/// The rows as lines of text, one after the other.
pub open spec fn rows_text(rows: Seq<BonusRow>) -> Seq<char>
    decreases rows.len(),
{
    if rows.len() == 0 {
        Seq::empty()
    } else {
        rows_text(rows.drop_last()) + row_text(rows.last())
    }
}

fn append_entry(out: &mut String, entry: BonusEntry, width: usize)
    ensures
        final(out)@ == old(out)@ + entry_text(entry, width as nat),
{
    let multiplier = align_right(decimal_string(entry.multiplier).as_str(), width);
    let number = align_right(decimal_string_of(entry.number).as_str(), 2);
    proof {
        reveal_strlit(": ");
    }
    out.append(multiplier.as_str());
    out.append(": ");
    out.append(number.as_str());
}

fn append_row(out: &mut String, row: BonusRow)
    ensures
        final(out)@ == old(out)@ + row_text(row),
{
    proof {
        reveal_strlit("     ");
        reveal_strlit("\n");
    }
    append_entry(out, row.left, 5);
    out.append("     ");
    append_entry(out, row.middle, 2);
    out.append("     ");
    append_entry(out, row.right, 2);
    out.append("\n");
}

impl DrawReport {
    /// The report as text: a line with the main numbers, then one line for
    /// each row of bonus numbers.
    pub open spec fn text(&self) -> Seq<char> {
        main_text(self.main_numbers@) + seq!['\n'] + rows_text(self.rows@)
    }

    /// Writes the report as text.
    pub fn render(&self) -> (r: String)
        ensures
            r@ == self.text(),
    {
        let mut out = String::new();
        proof {
            reveal_strlit(" ");
            reveal_strlit("\n");
        }
        let mut i: usize = 0;
        while i < 5
            invariant
                i <= 5,
                out@ == main_text(self.main_numbers@.subrange(0, i as int)),
                " "@ == seq![' '],
            decreases 5 - i,
        {
            proof {
                let next = self.main_numbers@.subrange(0, i + 1);
                assert(next.drop_last() =~= self.main_numbers@.subrange(0, i as int));
            }
            if i > 0 {
                out.append(" ");
            }
            let number = decimal_string_of(self.main_numbers[i]);
            out.append(number.as_str());
            i = i + 1;
        }
        assert(self.main_numbers@.subrange(0, 5) =~= self.main_numbers@);
        out.append("\n");
        let ghost head = out@;
        let mut k: usize = 0;
        while k < 10
            invariant
                k <= 10,
                out@ == head + rows_text(self.rows@.subrange(0, k as int)),
            decreases 10 - k,
        {
            proof {
                let next = self.rows@.subrange(0, k + 1);
                assert(next.drop_last() =~= self.rows@.subrange(0, k as int));
            }
            append_row(&mut out, self.rows[k]);
            k = k + 1;
        }
        assert(self.rows@.subrange(0, 10) =~= self.rows@);
        out
    }
}

/// Takes the packed result of a round apart and writes it as text.
pub fn render_result(result: &[Uint256]) -> (r: Result<String, LotteryError>)
    ensures
        result@.len() == 35 ==> (r matches Ok(text) && text@ == main_text(result@.subrange(0, 5))
            + seq!['\n'] + rows_text(Seq::new(10, |k: int| row_at(result@, k)))),
        result@.len() != 35 ==> (r matches Err(LotteryError::MalformedResult(len)) && len
            == result@.len()),
{
    match decode(result) {
        Ok(report) => {
            assert(report.main_numbers@ =~= result@.subrange(0, 5));
            assert(report.rows@ =~= Seq::new(10, |k: int| row_at(result@, k)));
            Ok(report.render())
        },
        Err(e) => Err(e),
    }
}

/// The multipliers of the bonus positions never rise from one position to
/// the next: the first is the largest, the last is 1.
pub proof fn lemma_multipliers_descend(i: int, j: int)
    requires
        5 <= i <= j < 35,
    ensures
        PRIZE_MULTIPLIERS[i] >= PRIZE_MULTIPLIERS[j],
        PRIZE_MULTIPLIERS[5] == 10000,
        PRIZE_MULTIPLIERS[34] == 1,
{
}

} // verus!
