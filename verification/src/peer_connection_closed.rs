//! The action that a peer closed its connection with us.
use crate::net::SocketAddr;
use vstd::prelude::*;

verus! {

/// A peer closed its connection with us.
#[derive(Clone, Copy, Debug, PartialEq, Eq, Structural)]
pub struct PeerConnectionClosedAction {
    pub address: SocketAddr,
}

impl PeerConnectionClosedAction {
    /// Whether the action may happen in a state: a peer may close its connection at any time.
    pub fn is_enabled<State>(&self, _state: &State) -> (r: bool)
        ensures
            r,
    {
        true
    }
}

} // verus!
