//! Host session state: the frontend-readiness latch and the RPC port.
//!
//! The frontend reports readiness exactly once to the script side, and
//! the RPC port, once a script claims it, is never overwritten.

use vstd::prelude::*;

verus! {

/// Session-wide host state shared between the shell and the scripts.
pub struct YasumuInternalState {
    ready: bool,
    rpc_port: Option<u16>,
}

impl YasumuInternalState {
    /// Whether the frontend has reported readiness.
    pub closed spec fn is_ready(&self) -> bool {
        self.ready
    }

    /// The claimed RPC port, if any.
    pub closed spec fn port(&self) -> Option<u16> {
        self.rpc_port
    }

    /// A fresh session: not ready, no port.
    pub fn new() -> (r: Self)
        ensures
            !r.is_ready(),
            r.port() is None,
    {
        YasumuInternalState { ready: false, rpc_port: None }
    }

    /// Records that the frontend is ready. True exactly on the first
    /// call: only then does the readiness event go to the script side.
    pub fn mark_ready(&mut self) -> (fire_event: bool)
        ensures
            fire_event == !old(self).is_ready(),
            final(self).is_ready(),
            final(self).port() == old(self).port(),
    {
        if self.ready {
            false
        } else {
            self.ready = true;
            true
        }
    }

    /// Whether the frontend has reported readiness.
    pub fn query_ready(&self) -> (r: bool)
        ensures
            r == self.is_ready(),
    {
        self.ready
    }

    /// Claims the RPC port. Only the first claim sticks: a port already
    /// set is never overwritten.
    pub fn set_rpc_port(&mut self, port: u16)
        ensures
            old(self).port() is None ==> final(self).port() == Some(port),
            old(self).port() is Some ==> final(self).port() == old(self).port(),
            final(self).is_ready() == old(self).is_ready(),
    {
        if self.rpc_port.is_none() {
            self.rpc_port = Some(port);
        }
    }

    /// The claimed RPC port, if any.
    pub fn get_rpc_port(&self) -> (r: Option<u16>)
        ensures
            r == self.port(),
    {
        self.rpc_port
    }
}

} // verus!
