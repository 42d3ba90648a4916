//! Decoding and formatting for the Lucky Six lottery: round states, packed
//! draw results, currency amounts, closing times and ticket lists.

pub mod denomination;
pub mod draw;
pub mod error;
pub mod round;
pub mod state;
pub mod text;
pub mod ticket;
pub mod uint256;

pub use crate::state::LotteryState;
pub use crate::uint256::convert_to_u256_arr;
