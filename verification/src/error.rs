//! The ways in which input can be refused.

use crate::uint256::Uint256;
use vstd::prelude::*;

verus! {

/// Why a value was refused. Each variant holds the value that was refused.
#[derive(Debug, PartialEq, Eq)]
pub enum LotteryError {
    /// A denomination label that is none of `wei`, `gwei`, `eth`.
    InvalidUnit(String),
    /// A round result that does not have 35 entries; holds its length.
    MalformedResult(usize),
    /// A state code above 4.
    InvalidState(u8),
    /// A closing time, in seconds since the epoch, that no calendar date
    /// stands for.
    InvalidTimestamp(Uint256),
    /// A signed value below zero where an unsigned quantity is expected.
    NegativeAmount(i128),
}

impl Clone for LotteryError {
    fn clone(&self) -> (r: Self)
        ensures
            r == *self,
    {
        match self {
            LotteryError::InvalidUnit(label) => LotteryError::InvalidUnit(label.clone()),
            LotteryError::MalformedResult(len) => LotteryError::MalformedResult(*len),
            LotteryError::InvalidState(code) => LotteryError::InvalidState(*code),
            LotteryError::InvalidTimestamp(seconds) => LotteryError::InvalidTimestamp(*seconds),
            LotteryError::NegativeAmount(value) => LotteryError::NegativeAmount(*value),
        }
    }
}

} // verus!
