//! The states of a round, as the chain numbers them.

use crate::error::LotteryError;
use vstd::prelude::*;

verus! {

/// Where a round stands in its life, in the order in which the states follow
/// one another.
#[derive(Clone, Copy, Debug, PartialEq, Eq, PartialOrd, Ord, Hash, Structural)]
pub enum LotteryState {
    READY,
    STARTED,
    CALCULATING,
    DRAWING,
    CLOSED,
}

impl LotteryState {
    /// The state that the chain numbers `code`, if there is one.
    pub open spec fn of_code(code: int) -> Option<LotteryState> {
        if code == 0 {
            Some(LotteryState::READY)
        } else if code == 1 {
            Some(LotteryState::STARTED)
        } else if code == 2 {
            Some(LotteryState::CALCULATING)
        } else if code == 3 {
            Some(LotteryState::DRAWING)
        } else if code == 4 {
            Some(LotteryState::CLOSED)
        } else {
            None
        }
    }

    /// The number that the chain gives this state.
    pub open spec fn code_of(self) -> int {
        match self {
            LotteryState::READY => 0,
            LotteryState::STARTED => 1,
            LotteryState::CALCULATING => 2,
            LotteryState::DRAWING => 3,
            LotteryState::CLOSED => 4,
        }
    }

    /// Names the state that the chain numbers `code`. A code above 4 names
    /// none and is refused.
    pub fn from_code(code: u8) -> (r: Result<LotteryState, LotteryError>)
        ensures
            match LotteryState::of_code(code as int) {
                Some(state) => r == Ok::<LotteryState, LotteryError>(state),
                None => r == Err::<LotteryState, LotteryError>(LotteryError::InvalidState(code)),
            },
    {
        match code {
            0 => Ok(LotteryState::READY),
            1 => Ok(LotteryState::STARTED),
            2 => Ok(LotteryState::CALCULATING),
            3 => Ok(LotteryState::DRAWING),
            4 => Ok(LotteryState::CLOSED),
            _ => Err(LotteryError::InvalidState(code)),
        }
    }

    /// The number that the chain gives this state.
    pub fn code(self) -> (r: u8)
        ensures
            r == self.code_of(),
    {
        match self {
            LotteryState::READY => 0,
            LotteryState::STARTED => 1,
            LotteryState::CALCULATING => 2,
            LotteryState::DRAWING => 3,
            LotteryState::CLOSED => 4,
        }
    }
}

impl TryFrom<u8> for LotteryState {
    type Error = LotteryError;

    /// Names the state that the chain numbers `code`, as
    /// [`LotteryState::from_code`] does.
    fn try_from(code: u8) -> (r: Result<LotteryState, LotteryError>) {
        LotteryState::from_code(code)
    }
}

impl vstd::std_specs::convert::TryFromSpecImpl<u8> for LotteryState {
    open spec fn obeys_try_from_spec() -> bool {
        true
    }

    open spec fn try_from_spec(code: u8) -> Result<LotteryState, LotteryError> {
        match LotteryState::of_code(code as int) {
            Some(state) => Ok(state),
            None => Err(LotteryError::InvalidState(code)),
        }
    }
}

/// The codes 0 to 4 name a state each and no other code names one; a state
/// is found again from its code, and a code from its state.
pub proof fn lemma_state_codes(code: int, state: LotteryState)
    ensures
        LotteryState::of_code(code) is Some <==> 0 <= code <= 4,
        LotteryState::of_code(state.code_of()) == Some(state),
        LotteryState::of_code(code) == Some(state) ==> state.code_of() == code,
{
}

} // verus!
