//! The adapter's socket table and the decisions it takes on replies and
//! notifications from the co-processor.
use vstd::prelude::*;

use crate::protocol::{Command, ConnectionType, FirmwareInfo, IpAddresses, RemoteAddr, Response, WifiConnectionFailure};
use crate::socket::{close_transition, fresh_socket, initialize_sockets, socket_wf, Socket, SocketState, SOCKET_COUNT};

verus! {

/// Declares `nb::Error` of the nb crate, the error of the non-blocking socket
/// operations: `WouldBlock` when no data is ready yet, `Other(e)` for a hard
/// error. Its two public variants are read as nb declares them; nothing else
/// of the crate is relied on.
#[verifier::external_type_specification]
#[verifier::reject_recursive_types(E)]
pub struct ExNbError<E>(nb::Error<E>);

/// Failures of the adapter as a whole.
#[derive(Debug, Clone, Copy, PartialEq, Eq, Structural)]
pub enum AdapterError {
    Timeout,
    UnableToInitialize,
    WriteError,
}

/// Failures of one socket operation.
#[derive(Debug, Clone, Copy, PartialEq, Eq, Structural)]
pub enum SocketError {
    NoAvailableSockets,
    SocketNotOpen,
    UnableToOpen,
    WriteError,
    ReadError,
}

/// The socket table of one co-processor.
pub struct Adapter {
    sockets: [Socket; SOCKET_COUNT],
}

impl View for Adapter {
    type V = Seq<Socket>;

    closed spec fn view(&self) -> Seq<Socket> {
        self.sockets@
    }
}

/// A table of five slots, none of which holds a stale byte count.
pub open spec fn table_wf(t: Seq<Socket>) -> bool {
    &&& t.len() == SOCKET_COUNT
    &&& forall|i: int| 0 <= i < t.len() ==> #[trigger] socket_wf(t[i])
}

/// `a + b`, held at the largest `usize`.
pub open spec fn saturating_sum(a: usize, b: usize) -> usize {
    if a + b > usize::MAX {
        usize::MAX
    } else {
        (a + b) as usize
    }
}

/// `a - b`, held at zero.
pub open spec fn saturating_diff(a: usize, b: usize) -> usize {
    if b <= a {
        (a - b) as usize
    } else {
        0
    }
}

/// The table after one notification: bytes announced for a live slot are
/// added to its count, a close moves the slot one step towards `Closed`
/// (dropping its count when it gets there), and anything else, or a link id
/// out of range, leaves the table as it is.
pub open spec fn apply_notification(t: Seq<Socket>, n: Response) -> Seq<Socket> {
    match n {
        Response::DataAvailable { link_id, len } => {
            if link_id < t.len() && t[link_id as int].state != SocketState::Closed {
                t.update(
                    link_id as int,
                    Socket {
                        state: t[link_id as int].state,
                        available: saturating_sum(t[link_id as int].available, len),
                    },
                )
            } else {
                t
            }
        },
        Response::Closed(link_id) => {
            if link_id < t.len() {
                let s = close_transition(t[link_id as int].state);
                t.update(
                    link_id as int,
                    Socket {
                        state: s,
                        available: if s == SocketState::Closed {
                            0
                        } else {
                            t[link_id as int].available
                        },
                    },
                )
            } else {
                t
            }
        },
        _ => t,
    }
}

/// The table after a run of notifications, taken in order.
pub open spec fn apply_notifications(t: Seq<Socket>, ns: Seq<Response>) -> Seq<Socket>
    decreases ns.len(),
{
    if ns.len() == 0 {
        t
    } else {
        apply_notification(apply_notifications(t, ns.drop_last()), ns.last())
    }
}

/// The lowest index of a closed slot, if any.
pub open spec fn is_first_closed(t: Seq<Socket>, i: int) -> bool {
    &&& 0 <= i < t.len()
    &&& t[i].state == SocketState::Closed
    &&& forall|j: int| 0 <= j < i ==> t[j].state != SocketState::Closed
}

pub open spec fn has_closed(t: Seq<Socket>) -> bool {
    exists|i: int| 0 <= i < t.len() && t[i].state == SocketState::Closed
}

/// What a read does on a slot before any command is sent: a closed slot,
/// or a half-closed one with nothing left, is not open; a live slot with
/// nothing buffered would block; otherwise a receive sized to the caller's
/// buffer is issued.
pub open spec fn read_gate(s: Socket, link_id: usize, capacity: usize) -> Result<Command, nb::Error<SocketError>> {
    if s.state == SocketState::Closed {
        Err(nb::Error::Other(SocketError::SocketNotOpen))
    } else if s.state == SocketState::HalfClosed && s.available == 0 {
        Err(nb::Error::Other(SocketError::SocketNotOpen))
    } else if s.available == 0 {
        Err(nb::Error::WouldBlock)
    } else {
        Ok(Command::Receive { link_id, len: capacity })
    }
}

/// A receive reply that can be taken: its length fits both the data it
/// carries and the caller's buffer.
pub open spec fn usable_data(reply: Result<Response, AdapterError>, capacity: nat) -> bool {
    reply matches Ok(Response::DataReceived(data, len)) && len <= data@.len() && len <= capacity
}

pub open spec fn received_len(reply: Result<Response, AdapterError>) -> usize {
    match reply {
        Ok(Response::DataReceived(_, len)) => len,
        _ => 0,
    }
}

pub open spec fn received_data(reply: Result<Response, AdapterError>) -> Seq<u8> {
    match reply {
        Ok(Response::DataReceived(data, _)) => data@,
        _ => Seq::empty(),
    }
}

/// Where the exchange of a write stands.
#[derive(Debug, Clone, Copy, PartialEq, Eq, Structural)]
pub enum WriteStage {
    /// The send command is out; its acknowledgement is awaited.
    AwaitAck,
    /// The co-processor's prompt for the payload is awaited.
    AwaitReady,
    /// The payload is out; the count it accepted is awaited.
    AwaitSendOk,
}

/// What the caller does next in a write.
#[derive(Debug, Clone, Copy, PartialEq, Eq, Structural)]
pub enum WriteAction {
    /// Wait for the next reply, in the stage given.
    Await(WriteStage),
    /// Stream the payload, then wait in `AwaitSendOk`.
    Transmit,
    /// The write is done; the co-processor accepted this many bytes.
    Accepted(usize),
    /// The write failed.
    Failed,
}

/// One step of a write: only `Ack`, then `ReadyForData`, then `SendOk(n)`
/// move it on.
pub open spec fn write_step_spec(stage: WriteStage, reply: Result<Response, AdapterError>) -> WriteAction {
    match stage {
        WriteStage::AwaitAck => if reply matches Ok(Response::Ack) {
            WriteAction::Await(WriteStage::AwaitReady)
        } else {
            WriteAction::Failed
        },
        WriteStage::AwaitReady => if reply matches Ok(Response::ReadyForData) {
            WriteAction::Transmit
        } else {
            WriteAction::Failed
        },
        WriteStage::AwaitSendOk => match reply {
            Ok(Response::SendOk(n)) => WriteAction::Accepted(n),
            _ => WriteAction::Failed,
        },
    }
}

/// Whether a write whose first two replies are these streams its payload.
pub open spec fn write_transmits(r1: Result<Response, AdapterError>, r2: Result<Response, AdapterError>) -> bool {
    write_step_spec(WriteStage::AwaitAck, r1) == WriteAction::Await(WriteStage::AwaitReady)
        && write_step_spec(WriteStage::AwaitReady, r2) == WriteAction::Transmit
}

/// The result of a write driven by these three replies in turn.
pub open spec fn write_result(
    r1: Result<Response, AdapterError>,
    r2: Result<Response, AdapterError>,
    r3: Result<Response, AdapterError>,
) -> Result<usize, SocketError> {
    if write_transmits(r1, r2) {
        match write_step_spec(WriteStage::AwaitSendOk, r3) {
            WriteAction::Accepted(n) => Ok(n),
            _ => Err(SocketError::WriteError),
        }
    } else {
        Err(SocketError::WriteError)
    }
}

/// A slot that is open or connected becomes half-closed when the peer closes
/// it, and closed, with no bytes left counted, when the peer's close comes a
/// second time.
pub proof fn lemma_close_twice(t: Seq<Socket>, link_id: usize)
    requires
        table_wf(t),
        link_id < SOCKET_COUNT,
        t[link_id as int].state == SocketState::Open || t[link_id as int].state == SocketState::Connected,
    ensures
        apply_notification(t, Response::Closed(link_id))[link_id as int].state == SocketState::HalfClosed,
        apply_notifications(t, seq![Response::Closed(link_id), Response::Closed(link_id)])[link_id as int]
            == fresh_socket(),
{
    let ns = seq![Response::Closed(link_id), Response::Closed(link_id)];
    let t1 = apply_notification(t, Response::Closed(link_id));
    assert(ns.drop_last() == seq![Response::Closed(link_id)]);
    assert(ns.drop_last().drop_last() == Seq::<Response>::empty());
    assert(apply_notifications(t, ns.drop_last().drop_last()) == t);
    assert(apply_notifications(t, ns.drop_last()) == t1);
    assert(t1.len() == t.len());
    assert(apply_notifications(t, ns) == apply_notification(t1, Response::Closed(link_id)));
}

/// A read on a closed slot is refused as not open whatever its count, and so
/// is one on a half-closed slot with nothing buffered; a half-closed slot
/// with bytes left issues a receive.
pub proof fn lemma_read_gate_not_open(s: Socket, link_id: usize, capacity: usize)
    ensures
        s.state == SocketState::Closed ==> read_gate(s, link_id, capacity) == Err::<Command, nb::Error<SocketError>>(
            nb::Error::Other(SocketError::SocketNotOpen),
        ),
        s.state == SocketState::HalfClosed && s.available == 0 ==> read_gate(s, link_id, capacity)
            == Err::<Command, nb::Error<SocketError>>(nb::Error::Other(SocketError::SocketNotOpen)),
        s.state == SocketState::HalfClosed && s.available > 0 ==> read_gate(s, link_id, capacity)
            == Ok::<Command, nb::Error<SocketError>>(Command::Receive { link_id, len: capacity }),
{
}

/// A write accepts `n` bytes exactly when its replies are `Ack`,
/// `ReadyForData` and `SendOk(n)`; it streams the payload exactly when the
/// first two are `Ack` and `ReadyForData`; any other sequence is a write
/// error.
pub proof fn lemma_write_exact_sequence(
    r1: Result<Response, AdapterError>,
    r2: Result<Response, AdapterError>,
    r3: Result<Response, AdapterError>,
)
    ensures
        write_transmits(r1, r2) <==> (r1 == Ok::<Response, AdapterError>(Response::Ack)
            && r2 == Ok::<Response, AdapterError>(Response::ReadyForData)),
        forall|n: usize|
            write_result(r1, r2, r3) == Ok::<usize, SocketError>(n) <==> (r1 == Ok::<Response, AdapterError>(Response::Ack)
                && r2 == Ok::<Response, AdapterError>(Response::ReadyForData)
                && r3 == Ok::<Response, AdapterError>(Response::SendOk(n))),
        write_result(r1, r2, r3) is Err ==> write_result(r1, r2, r3) == Err::<usize, SocketError>(SocketError::WriteError),
{
}

/// Bytes announced for a live slot with an empty count make a read issue a
/// receive; a reply that delivers all of them leaves the count at zero.
pub proof fn lemma_announce_then_read(t: Seq<Socket>, link_id: usize, n: usize, capacity: usize)
    requires
        table_wf(t),
        link_id < SOCKET_COUNT,
        t[link_id as int].state != SocketState::Closed,
        t[link_id as int].available == 0,
        n > 0,
    ensures
        ({
            let t2 = apply_notification(t, Response::DataAvailable { link_id, len: n });
            &&& t2[link_id as int].available == n
            &&& read_gate(t2[link_id as int], link_id, capacity) == Ok::<Command, nb::Error<SocketError>>(
                Command::Receive { link_id, len: capacity },
            )
            &&& saturating_diff(t2[link_id as int].available, n) == 0
        }),
{
}

/// Opening slots one after another on a fresh table hands them out in
/// ascending order: while the first `k` slots are open and the rest closed,
/// the next open takes slot `k` and no other, and once all five are open none
/// is left to take.
pub proof fn lemma_open_in_order(t: Seq<Socket>, k: int)
    requires
        table_wf(t),
        0 <= k <= SOCKET_COUNT,
        forall|j: int| 0 <= j < k ==> #[trigger] t[j].state == SocketState::Open,
        forall|j: int| k <= j < SOCKET_COUNT ==> #[trigger] t[j] == fresh_socket(),
    ensures
        k < SOCKET_COUNT ==> is_first_closed(t, k),
        forall|i: int| is_first_closed(t, i) ==> i == k,
        k < SOCKET_COUNT ==> ({
            let t2 = t.update(k, Socket { state: SocketState::Open, available: 0 });
            &&& table_wf(t2)
            &&& forall|j: int| 0 <= j < k + 1 ==> #[trigger] t2[j].state == SocketState::Open
            &&& forall|j: int| k + 1 <= j < SOCKET_COUNT ==> #[trigger] t2[j] == fresh_socket()
        }),
        k == SOCKET_COUNT ==> !has_closed(t),
{
    assert forall|i: int| is_first_closed(t, i) implies i == k by {
        if i < k {
            assert(t[i].state == SocketState::Open);
        } else if i > k {
            assert(t[k] == fresh_socket());
        }
    }
    if k < SOCKET_COUNT {
        assert(t[k] == fresh_socket());
        let t2 = t.update(k, Socket { state: SocketState::Open, available: 0 });
        assert forall|i: int| 0 <= i < t2.len() implies #[trigger] socket_wf(t2[i]) by {
            if i != k {
                assert(socket_wf(t[i]));
            }
        }
    }
    if k == SOCKET_COUNT {
        assert forall|i: int| 0 <= i < t.len() implies t[i].state != SocketState::Closed by {
            assert(t[i].state == SocketState::Open);
        }
    }
}

impl Adapter {
    /// The adapter keeps five slots and no stale byte count.
    pub open spec fn wf(&self) -> bool {
        table_wf(self@)
    }

    /// A fresh adapter: five slots, all closed, nothing buffered.
    pub fn new() -> (r: Adapter)
        ensures
            r.wf(),
            r@.len() == SOCKET_COUNT,
            forall|i: int| 0 <= i < SOCKET_COUNT ==> r@[i] == fresh_socket(),
    {
        let r = Adapter { sockets: initialize_sockets() };
        assert(table_wf(r@));
        r
    }

    /// The slot `link_id`, or `None` where there is no such slot.
    pub fn socket(&self, link_id: usize) -> (r: Option<Socket>)
        requires
            self.wf(),
        ensures
            link_id < SOCKET_COUNT ==> r == Some(self@[link_id as int]),
            link_id >= SOCKET_COUNT ==> r is None,
    {
        if link_id < SOCKET_COUNT {
            Some(self.sockets[link_id])
        } else {
            None
        }
    }

    /// Folds one notification into the table.
    pub fn process_notification(&mut self, n: &Response)
        requires
            old(self).wf(),
        ensures
            final(self).wf(),
            final(self)@ == apply_notification(old(self)@, *n),
    {
        match n {
            Response::DataAvailable { link_id, len } => {
                let link_id = *link_id;
                if link_id < SOCKET_COUNT && !self.sockets[link_id].is_closed() {
                    let s = self.sockets[link_id];
                    self.sockets[link_id] = Socket { state: s.state, available: s.available.saturating_add(*len) };
                }
            },
            Response::Closed(link_id) => {
                let link_id = *link_id;
                if link_id < SOCKET_COUNT {
                    let s = self.sockets[link_id];
                    let next = match s.state {
                        SocketState::HalfClosed => Socket { state: SocketState::Closed, available: 0 },
                        SocketState::Open | SocketState::Connected => Socket {
                            state: SocketState::HalfClosed,
                            available: s.available,
                        },
                        SocketState::Closed => Socket { state: SocketState::Closed, available: 0 },
                    };
                    self.sockets[link_id] = next;
                }
            },
            _ => {},
        }
        assert(table_wf(self@));
    }

    /// Folds, in order, the notifications drained from the notification
    /// queue.
    pub fn process_notifications(&mut self, pending: &[Response])
        requires
            old(self).wf(),
        ensures
            final(self).wf(),
            final(self)@ == apply_notifications(old(self)@, pending@),
    {
        let mut i: usize = 0;
        while i < pending.len()
            invariant
                i <= pending@.len(),
                self.wf(),
                self@ == apply_notifications(old(self)@, pending@.take(i as int)),
            decreases pending@.len() - i,
        {
            assert(pending@.take(i as int + 1).drop_last() == pending@.take(i as int));
            self.process_notification(&pending[i]);
            i = i + 1;
        }
        assert(pending@.take(pending@.len() as int) == pending@);
    }

    /// Reserves the lowest closed slot, marking it open; no command is sent.
    pub fn open(&mut self) -> (r: Result<usize, SocketError>)
        requires
            old(self).wf(),
        ensures
            final(self).wf(),
            r is Ok <==> has_closed(old(self)@),
            match r {
                Ok(i) => {
                    &&& is_first_closed(old(self)@, i as int)
                    &&& final(self)@ == old(self)@.update(
                        i as int,
                        Socket { state: SocketState::Open, available: 0 },
                    )
                },
                Err(e) => e == SocketError::NoAvailableSockets && final(self)@ == old(self)@,
            },
    {
        let mut i: usize = 0;
        while i < SOCKET_COUNT
            invariant
                self.wf(),
                i <= self@.len(),
                self@ == old(self)@,
                forall|j: int| 0 <= j < i ==> self@[j].state != SocketState::Closed,
            decreases self@.len() - i,
        {
            if self.sockets[i].is_closed() {
                self.sockets[i] = Socket { state: SocketState::Open, available: 0 };
                assert(table_wf(self@));
                return Ok(i);
            }
            i = i + 1;
        }
        Err(SocketError::NoAvailableSockets)
    }

    /// Forces slot `link_id` closed, dropping its byte count.
    pub fn close(&mut self, link_id: usize) -> (r: Result<(), SocketError>)
        requires
            old(self).wf(),
        ensures
            final(self).wf(),
            link_id < SOCKET_COUNT ==> r is Ok && final(self)@ == old(self)@.update(
                link_id as int,
                fresh_socket(),
            ),
            link_id >= SOCKET_COUNT ==> r == Err::<(), SocketError>(SocketError::SocketNotOpen)
                && final(self)@ == old(self)@,
    {
        if link_id < SOCKET_COUNT {
            self.sockets[link_id] = Socket { state: SocketState::Closed, available: 0 };
            assert(table_wf(self@));
            Ok(())
        } else {
            Err(SocketError::SocketNotOpen)
        }
    }

    /// The command that opens a TCP link on slot `link_id` to `remote`.
    pub fn connect_tcp(link_id: usize, remote: RemoteAddr) -> (r: Command)
        ensures
            r == Command::StartConnection(link_id, ConnectionType::TCP, remote),
    {
        Command::StartConnection(link_id, ConnectionType::TCP, remote)
    }

    /// Judges the reply to a connect on slot `link_id`: a `Connect` reply
    /// naming that same link marks the slot connected; anything else,
    /// including a `Connect` for another link, leaves the table as it was.
    pub fn connect_tcp_reply(&mut self, link_id: usize, reply: &Result<Response, AdapterError>) -> (r: Result<(), SocketError>)
        requires
            old(self).wf(),
        ensures
            final(self).wf(),
            r is Ok <==> (link_id < SOCKET_COUNT && *reply == Ok::<Response, AdapterError>(Response::Connect(link_id))),
            r is Ok ==> final(self)@ == old(self)@.update(
                link_id as int,
                Socket { state: SocketState::Connected, available: old(self)@[link_id as int].available },
            ),
            r is Err ==> r == Err::<(), SocketError>(SocketError::UnableToOpen) && final(self)@ == old(self)@,
    {
        if link_id < SOCKET_COUNT {
            if let Ok(Response::Connect(id)) = reply {
                if *id == link_id {
                    let s = self.sockets[link_id];
                    self.sockets[link_id] = Socket { state: SocketState::Connected, available: s.available };
                    assert(table_wf(self@));
                    return Ok(());
                }
            }
        }
        Err(SocketError::UnableToOpen)
    }

    /// Starts a write of `len` bytes on slot `link_id`: folds the pending
    /// notifications, then gives the send command to issue.
    pub fn begin_write(&mut self, link_id: usize, pending: &[Response], len: usize) -> (r: Command)
        requires
            old(self).wf(),
        ensures
            final(self).wf(),
            final(self)@ == apply_notifications(old(self)@, pending@),
            r == (Command::Send { link_id, len }),
    {
        self.process_notifications(pending);
        Command::Send { link_id, len }
    }

    /// One step of a write, from the stage it is in and the reply that came.
    pub fn write_step(stage: WriteStage, reply: &Result<Response, AdapterError>) -> (r: WriteAction)
        ensures
            r == write_step_spec(stage, *reply),
    {
        match stage {
            WriteStage::AwaitAck => {
                if let Ok(Response::Ack) = reply {
                    WriteAction::Await(WriteStage::AwaitReady)
                } else {
                    WriteAction::Failed
                }
            },
            WriteStage::AwaitReady => {
                if let Ok(Response::ReadyForData) = reply {
                    WriteAction::Transmit
                } else {
                    WriteAction::Failed
                }
            },
            WriteStage::AwaitSendOk => {
                if let Ok(Response::SendOk(n)) = reply {
                    WriteAction::Accepted(*n)
                } else {
                    WriteAction::Failed
                }
            },
        }
    }

    /// Starts a read on slot `link_id` into a buffer of `capacity` bytes:
    /// folds the pending notifications, then either gives the receive
    /// command to issue or says why the read cannot go on.
    pub fn begin_read(&mut self, link_id: usize, pending: &[Response], capacity: usize) -> (r: Result<Command, nb::Error<SocketError>>)
        requires
            old(self).wf(),
        ensures
            final(self).wf(),
            final(self)@ == apply_notifications(old(self)@, pending@),
            link_id < SOCKET_COUNT ==> r == read_gate(final(self)@[link_id as int], link_id, capacity),
            link_id >= SOCKET_COUNT ==> r == Err::<Command, nb::Error<SocketError>>(nb::Error::Other(SocketError::SocketNotOpen)),
    {
        self.process_notifications(pending);
        if link_id >= SOCKET_COUNT {
            return Err(nb::Error::Other(SocketError::SocketNotOpen));
        }
        let s = self.sockets[link_id];
        if s.is_closed() {
            return Err(nb::Error::Other(SocketError::SocketNotOpen));
        }
        if s.is_half_closed() && s.available == 0 {
            return Err(nb::Error::Other(SocketError::SocketNotOpen));
        }
        if s.available == 0 {
            return Err(nb::Error::WouldBlock);
        }
        Ok(Command::Receive { link_id, len: capacity })
    }

    /// Takes the reply to a receive on slot `link_id`: the bytes it carries
    /// are copied to the front of `buffer` and taken off the slot's count.
    /// Any other reply, or one whose length overruns its data or the buffer,
    /// is a read error and changes nothing.
    pub fn finish_read(&mut self, link_id: usize, reply: &Result<Response, AdapterError>, buffer: &mut [u8]) -> (r: Result<usize, nb::Error<SocketError>>)
        requires
            old(self).wf(),
        ensures
            final(self).wf(),
            r is Ok <==> (link_id < SOCKET_COUNT && usable_data(*reply, old(buffer)@.len())),
            match r {
                Ok(n) => {
                    let s = old(self)@[link_id as int];
                    &&& n == received_len(*reply)
                    &&& final(buffer)@.len() == old(buffer)@.len()
                    &&& final(buffer)@.subrange(0, n as int) == received_data(*reply).subrange(0, n as int)
                    &&& final(buffer)@.subrange(n as int, final(buffer)@.len() as int)
                        == old(buffer)@.subrange(n as int, old(buffer)@.len() as int)
                    &&& final(self)@ == old(self)@.update(
                        link_id as int,
                        Socket { state: s.state, available: saturating_diff(s.available, n) },
                    )
                },
                Err(e) => {
                    &&& e == nb::Error::Other(SocketError::ReadError)
                    &&& final(self)@ == old(self)@
                    &&& final(buffer)@ == old(buffer)@
                },
            },
    {
        if link_id >= SOCKET_COUNT {
            return Err(nb::Error::Other(SocketError::ReadError));
        }
        match reply {
            Ok(Response::DataReceived(data, len)) => {
                let len = *len;
                if len > data.len() || len > buffer.len() {
                    return Err(nb::Error::Other(SocketError::ReadError));
                }
                let mut i: usize = 0;
                while i < len
                    invariant
                        i <= len,
                        self.wf(),
                        self@ == old(self)@,
                        len <= data@.len(),
                        len <= buffer@.len(),
                        buffer@.len() == old(buffer)@.len(),
                        forall|j: int| 0 <= j < i ==> buffer@[j] == data@[j],
                        forall|j: int| len <= j < buffer@.len() ==> buffer@[j] == old(buffer)@[j],
                    decreases len - i,
                {
                    buffer[i] = data[i];
                    i = i + 1;
                }
                assert(buffer@.subrange(0, len as int) =~= data@.subrange(0, len as int));
                assert(buffer@.subrange(len as int, buffer@.len() as int)
                    =~= old(buffer)@.subrange(len as int, old(buffer)@.len() as int));
                let s = self.sockets[link_id];
                assert(socket_wf(self@[link_id as int]));
                let rest = if len <= s.available { s.available - len } else { 0 };
                self.sockets[link_id] = Socket { state: s.state, available: rest };
                assert(table_wf(self@));
                Ok(len)
            },
            _ => Err(nb::Error::Other(SocketError::ReadError)),
        }
    }

    /// Judges the reply to a firmware query.
    pub fn firmware_info_reply(reply: &Result<Response, AdapterError>) -> (r: Result<FirmwareInfo, ()>)
        ensures
            r == match *reply {
                Ok(Response::FirmwareInfo(info)) => Ok(info),
                _ => Err::<FirmwareInfo, ()>(()),
            },
    {
        if let Ok(Response::FirmwareInfo(info)) = reply {
            Ok(*info)
        } else {
            Err(())
        }
    }

    /// Judges the reply to an address query.
    pub fn ip_address_reply(reply: &Result<Response, AdapterError>) -> (r: Result<IpAddresses, ()>)
        ensures
            r == match *reply {
                Ok(Response::IpAddresses(a)) => Ok(a),
                _ => Err::<IpAddresses, ()>(()),
            },
    {
        if let Ok(Response::IpAddresses(a)) = reply {
            Ok(*a)
        } else {
            Err(())
        }
    }

    /// Judges the reply to joining an access point: `Ack` is success, a
    /// reported failure is passed on, anything else is a failed connection.
    pub fn join_reply(reply: &Result<Response, AdapterError>) -> (r: Result<(), WifiConnectionFailure>)
        ensures
            r == match *reply {
                Ok(Response::Ack) => Ok(()),
                Ok(Response::WifiConnectionFailure(reason)) => Err(reason),
                _ => Err::<(), WifiConnectionFailure>(WifiConnectionFailure::ConnectionFailed),
            },
    {
        match reply {
            Ok(Response::Ack) => Ok(()),
            Ok(Response::WifiConnectionFailure(reason)) => Err(*reason),
            _ => Err(WifiConnectionFailure::ConnectionFailed),
        }
    }
}

} // verus!
