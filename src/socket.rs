//! One slot of the socket table and its life cycle.
use vstd::prelude::*;

verus! {

/// The life-cycle state of one multiplexed link.
#[derive(Debug, Clone, Copy, PartialEq, Eq, Structural)]
pub enum SocketState {
    /// The peer has closed; buffered bytes may still be drained.
    HalfClosed,
    Closed,
    Open,
    Connected,
}

/// One slot of the table: its state and the bytes the peer reports buffered.
#[derive(Debug, Clone, Copy, PartialEq, Eq, Structural)]
pub struct Socket {
    pub state: SocketState,
    pub available: usize,
}

/// The number of slots, one per link id of the co-processor.
pub const SOCKET_COUNT: usize = 5;

/// The state a slot moves to when the peer reports the link closed.
pub open spec fn close_transition(s: SocketState) -> SocketState {
    match s {
        SocketState::HalfClosed => SocketState::Closed,
        SocketState::Open | SocketState::Connected => SocketState::HalfClosed,
        SocketState::Closed => SocketState::Closed,
    }
}

/// A closed slot holds no stale byte count.
pub open spec fn socket_wf(s: Socket) -> bool {
    s.state == SocketState::Closed ==> s.available == 0
}

/// The slot as it stands before any use.
pub open spec fn fresh_socket() -> Socket {
    Socket { state: SocketState::Closed, available: 0 }
}

impl Socket {
    pub fn is_closed(&self) -> (r: bool)
        ensures
            r == (self.state == SocketState::Closed),
    {
        matches!(self.state, SocketState::Closed)
    }

    pub fn is_half_closed(&self) -> (r: bool)
        ensures
            r == (self.state == SocketState::HalfClosed),
    {
        matches!(self.state, SocketState::HalfClosed)
    }

    pub fn is_open(&self) -> (r: bool)
        ensures
            r == (self.state == SocketState::Open),
    {
        matches!(self.state, SocketState::Open)
    }

    pub fn is_connected(&self) -> (r: bool)
        ensures
            r == (self.state == SocketState::Connected),
    {
        matches!(self.state, SocketState::Connected)
    }
}

/// The table of a freshly built adapter: every slot closed, nothing buffered.
pub fn initialize_sockets() -> (r: [Socket; SOCKET_COUNT])
    ensures
        r@.len() == SOCKET_COUNT,
        forall|i: int| 0 <= i < r@.len() ==> r@[i] == fresh_socket(),
{
    let r: [Socket; SOCKET_COUNT] = [
        Socket { state: SocketState::Closed, available: 0 },
        Socket { state: SocketState::Closed, available: 0 },
        Socket { state: SocketState::Closed, available: 0 },
        Socket { state: SocketState::Closed, available: 0 },
        Socket { state: SocketState::Closed, available: 0 },
    ];
    assert(r@ =~= seq![fresh_socket(), fresh_socket(), fresh_socket(), fresh_socket(), fresh_socket()]);
    r
}

} // verus!
