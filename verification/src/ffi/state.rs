//! How far the connection of an engine has come.
use crate::ffi::types::FfiStatus;
use vstd::prelude::*;

verus! {

/// How far the connection of an engine has come.
#[derive(Clone, Copy, Debug, PartialEq, Eq, Structural)]
pub enum ConnectionState {
    /// It is being established.
    Connecting,
    /// It is established.
    Ready,
    /// It could not be established, or broke.
    Failed,
}

/// What a call that only asks for progress answers. `closed` says whether an established
/// connection is closed by now.
pub open spec fn progress(state: ConnectionState, closed: bool) -> FfiStatus {
    match state {
        ConnectionState::Connecting => FfiStatus::WouldBlock,
        ConnectionState::Ready => if closed {
            FfiStatus::Failed
        } else {
            FfiStatus::Completed
        },
        ConnectionState::Failed => FfiStatus::Failed,
    }
}

/// Why a call that needs the connection is refused, if it is.
pub open spec fn unusable(state: ConnectionState, closed: bool) -> Option<FfiStatus> {
    match state {
        ConnectionState::Connecting => Some(FfiStatus::NotReady),
        ConnectionState::Ready => if closed {
            Some(FfiStatus::Failed)
        } else {
            None
        },
        ConnectionState::Failed => Some(FfiStatus::Failed),
    }
}

impl ConnectionState {
    /// What a call that only asks for progress answers.
    pub fn report(self, closed: bool) -> (status: FfiStatus)
        ensures
            status == progress(self, closed),
    {
        match self {
            ConnectionState::Connecting => FfiStatus::WouldBlock,
            ConnectionState::Ready => {
                if closed {
                    FfiStatus::Failed
                } else {
                    FfiStatus::Completed
                }
            },
            ConnectionState::Failed => FfiStatus::Failed,
        }
    }

    /// Why a call that needs the connection is refused, if it is.
    pub fn refusal(self, closed: bool) -> (status: Option<FfiStatus>)
        ensures
            status == unusable(self, closed),
    {
        match self {
            ConnectionState::Connecting => Some(FfiStatus::NotReady),
            ConnectionState::Ready => {
                if closed {
                    Some(FfiStatus::Failed)
                } else {
                    None
                }
            },
            ConnectionState::Failed => Some(FfiStatus::Failed),
        }
    }
}

}
