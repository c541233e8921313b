use crate::protocol::types::error::DatatypeError;
use vstd::prelude::*;

verus! {

/// The session's protocol state.
#[derive(Debug, Copy, Clone, PartialEq, Eq, Structural)]
pub enum State {
    Handshaking,
    Status,
    Login,
    Transfer,
    Configuration,
}

/// The state a wire value names, if any: the handshake's next-state field
/// counts the states from zero in declaration order.
pub open spec fn spec_state_from_num(n: int) -> Option<State> {
    if n == 0 {
        Some(State::Handshaking)
    } else if n == 1 {
        Some(State::Status)
    } else if n == 2 {
        Some(State::Login)
    } else if n == 3 {
        Some(State::Transfer)
    } else if n == 4 {
        Some(State::Configuration)
    } else {
        None
    }
}

impl State {
    /// Map a wire value to a state, exactly as [`spec_state_from_num`]
    /// describes; any other value is an `UnknownState` error carrying it.
    pub fn from_num(num: i32) -> (r: Result<State, DatatypeError>)
        ensures
            match spec_state_from_num(num as int) {
                Some(st) => r == Ok::<State, DatatypeError>(st),
                None => r == Err::<State, DatatypeError>(DatatypeError::UnknownState(num)),
            },
    {
        match num {
            0 => Ok(State::Handshaking),
            1 => Ok(State::Status),
            2 => Ok(State::Login),
            3 => Ok(State::Transfer),
            4 => Ok(State::Configuration),
            _ => Err(DatatypeError::UnknownState(num)),
        }
    }
}

} // verus!
