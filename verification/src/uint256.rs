//! Unsigned 256-bit integers as the chain hands them over.

use crate::error::LotteryError;
use crate::text::decimal_text;
use ethers::types::U256;
use vstd::prelude::*;

verus! {

/// An unsigned 256-bit integer held as four 64-bit words, least significant
/// word first.
#[derive(Clone, Copy, Debug, PartialEq, Eq, Structural)]
pub struct Uint256 {
    pub w0: u64,
    pub w1: u64,
    pub w2: u64,
    pub w3: u64,
}

impl View for Uint256 {
    type V = nat;

    /// The number that the four words stand for.
    open spec fn view(&self) -> nat {
        (self.w0 as nat) + (self.w1 as nat) * 0x1_0000_0000_0000_0000
            + (self.w2 as nat) * 0x1_0000_0000_0000_0000_0000_0000_0000_0000
            + (self.w3 as nat)
            * 0x1_0000_0000_0000_0000_0000_0000_0000_0000_0000_0000_0000_0000
    }
}

impl Uint256 {
    /// The integer whose value is `value`.
    pub fn from_u64(value: u64) -> (r: Uint256)
        ensures
            r@ == value,
    {
        Uint256 { w0: value, w1: 0, w2: 0, w3: 0 }
    }

    /// The integer whose value is `value`.
    pub fn from_u128(value: u128) -> (r: Uint256)
        ensures
            r@ == value,
    {
        let low: u64 = (value & 0xFFFF_FFFF_FFFF_FFFF) as u64;
        let high: u64 = (value >> 64) as u64;
        assert(value == (value >> 64) * 0x1_0000_0000_0000_0000 + (value & 0xFFFF_FFFF_FFFF_FFFF)
            && (value & 0xFFFF_FFFF_FFFF_FFFF) <= 0xFFFF_FFFF_FFFF_FFFF && (value >> 64)
            <= 0xFFFF_FFFF_FFFF_FFFF) by (bit_vector);
        Uint256 { w0: low, w1: high, w2: 0, w3: 0 }
    }

    /// The integer whose value is `value`, which must not be negative.
    pub fn try_from_i128(value: i128) -> (r: Result<Uint256, LotteryError>)
        ensures
            value >= 0 ==> (r matches Ok(n) && n@ == value),
            value < 0 ==> r == Err::<Uint256, LotteryError>(LotteryError::NegativeAmount(value)),
    {
        if value < 0 {
            Err(LotteryError::NegativeAmount(value))
        } else {
            Ok(Uint256::from_u128(value as u128))
        }
    }

    /// The value as a 64-bit integer, if it is small enough for one.
    pub fn to_u64(self) -> (r: Option<u64>)
        ensures
            self@ <= u64::MAX ==> r == Some(self@ as u64),
            self@ > u64::MAX ==> r is None,
    {
        if self.w1 == 0 && self.w2 == 0 && self.w3 == 0 {
            Some(self.w0)
        } else {
            None
        }
    }
}

/// Calls `to_string` of `ethers::types::U256`, on the value built from the
/// words of `value`. Trusted: the text is the value in decimal, without
/// leading zeros, and `0` for zero.
#[verifier::external_body]
pub(crate) fn decimal_string_of(value: Uint256) -> (text: String)
    ensures
        text@ == decimal_text(value@),
{
    U256([value.w0, value.w1, value.w2, value.w3]).to_string()
}

/// The first entry of `input` that is below zero, if there is one.
pub open spec fn first_negative(input: Seq<i32>) -> Option<i32>
    decreases input.len(),
{
    if input.len() == 0 {
        None
    } else {
        match first_negative(input.drop_last()) {
            Some(value) => Some(value),
            None => if input.last() < 0 {
                Some(input.last())
            } else {
                None
            },
        }
    }
}

/// A negative entry among the first `len` entries is the first negative
/// entry of the whole.
proof fn lemma_first_negative_stays(input: Seq<i32>, len: int)
    requires
        0 <= len <= input.len(),
        first_negative(input.subrange(0, len)) is Some,
    ensures
        first_negative(input) == first_negative(input.subrange(0, len)),
    decreases input.len() - len,
{
    if len < input.len() {
        assert(input.subrange(0, len + 1).drop_last() =~= input.subrange(0, len));
        lemma_first_negative_stays(input, len + 1);
    } else {
        assert(input.subrange(0, len) =~= input);
    }
}

/// Turns the six numbers of a combination into 256-bit integers. A negative
/// number is refused: the error holds the first one.
pub fn convert_to_u256_arr(input: [i32; 6]) -> (r: Result<[Uint256; 6], LotteryError>)
    ensures
        match first_negative(input@) {
            Some(value) => r == Err::<[Uint256; 6], LotteryError>(
                LotteryError::NegativeAmount(value as i128),
            ),
            None => r matches Ok(out) && forall|i: int|
                0 <= i < 6 ==> (#[trigger] out[i])@ == input[i],
        },
{
    let mut result = [Uint256::from_u64(0);6];
    let mut i: usize = 0;
    while i < 6
        invariant
            i <= 6,
            first_negative(input@.subrange(0, i as int)) is None,
            forall|j: int| 0 <= j < i ==> (#[trigger] result[j])@ == input[j],
        decreases 6 - i,
    {
        let value = input[i];
        proof {
            let next = input@.subrange(0, i + 1);
            assert(next.drop_last() =~= input@.subrange(0, i as int));
        }
        match Uint256::try_from_i128(value as i128) {
            Ok(number) => {
                result[i] = number;
            },
            Err(e) => {
                proof {
                    lemma_first_negative_stays(input@, i + 1);
                }
                return Err(e);
            },
        }
        i = i + 1;
    }
    assert(input@.subrange(0, 6) =~= input@);
    Ok(result)
}

} // verus!
