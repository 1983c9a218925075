use drogue_esp8266::adapter::{Adapter, AdapterError, SocketError, WriteAction, WriteStage};
use drogue_esp8266::protocol::{Command, FirmwareInfo, IpAddresses, RemoteAddr, Response, WifiConnectionFailure};
use drogue_esp8266::socket::{initialize_sockets, Socket, SocketState};

fn closed() -> Socket {
    Socket { state: SocketState::Closed, available: 0 }
}

/// Drives a write through three replies; gives whether the payload went out
/// and the result.
fn run_write(replies: [Result<Response, AdapterError>; 3]) -> (bool, Result<usize, SocketError>) {
    let mut stage = WriteStage::AwaitAck;
    let mut transmitted = false;
    for reply in replies.iter() {
        match Adapter::write_step(stage, reply) {
            WriteAction::Await(next) => stage = next,
            WriteAction::Transmit => {
                transmitted = true;
                stage = WriteStage::AwaitSendOk;
            }
            WriteAction::Accepted(n) => return (transmitted, Ok(n)),
            WriteAction::Failed => return (transmitted, Err(SocketError::WriteError)),
        }
    }
    (transmitted, Err(SocketError::WriteError))
}

#[test]
fn fresh_adapter_has_five_closed_slots() {
    let a = Adapter::new();
    for i in 0..5 {
        assert_eq!(a.socket(i), Some(closed()));
    }
    assert_eq!(a.socket(5), None);
    let t = initialize_sockets();
    assert_eq!(t.len(), 5);
    assert!(t.iter().all(|s| s.is_closed() && s.available == 0));
}

#[test]
fn open_five_then_none_left() {
    let mut a = Adapter::new();
    for i in 0..5 {
        assert_eq!(a.open().unwrap(), i);
    }
    assert!(matches!(a.open(), Err(SocketError::NoAvailableSockets)));
}

#[test]
fn open_reuses_lowest_closed_slot() {
    let mut a = Adapter::new();
    for _ in 0..5 {
        a.open().unwrap();
    }
    a.close(3).unwrap();
    a.close(1).unwrap();
    assert_eq!(a.open().unwrap(), 1);
    assert_eq!(a.open().unwrap(), 3);
    assert!(matches!(a.close(5), Err(SocketError::SocketNotOpen)));
}

#[test]
fn peer_close_twice_half_closes_then_closes() {
    let mut a = Adapter::new();
    let id = a.open().unwrap();
    a.process_notification(&Response::DataAvailable { link_id: id, len: 4 });
    a.process_notification(&Response::Closed(id));
    let s = a.socket(id).unwrap();
    assert!(s.is_half_closed());
    assert_eq!(s.available, 4);
    a.process_notification(&Response::Closed(id));
    assert_eq!(a.socket(id), Some(closed()));
}

#[test]
fn connected_slot_half_closes_on_peer_close() {
    let mut a = Adapter::new();
    let id = a.open().unwrap();
    a.connect_tcp_reply(id, &Ok(Response::Connect(id))).unwrap();
    assert!(a.socket(id).unwrap().is_connected());
    a.process_notifications(&vec![Response::Closed(id)]);
    assert!(a.socket(id).unwrap().is_half_closed());
    a.process_notifications(&vec![Response::Closed(id)]);
    assert!(a.socket(id).unwrap().is_closed());
}

#[test]
fn notifications_for_closed_or_unknown_slots_change_nothing() {
    let mut a = Adapter::new();
    a.process_notifications(&vec![
        Response::DataAvailable { link_id: 0, len: 9 },
        Response::Closed(0),
        Response::Closed(7),
        Response::DataAvailable { link_id: 9, len: 1 },
        Response::Connect(2),
        Response::Ack,
    ]);
    for i in 0..5 {
        assert_eq!(a.socket(i), Some(closed()));
    }
}

#[test]
fn data_available_adds_up() {
    let mut a = Adapter::new();
    let id = a.open().unwrap();
    a.process_notifications(&vec![
        Response::DataAvailable { link_id: id, len: 3 },
        Response::DataAvailable { link_id: id, len: 5 },
    ]);
    assert_eq!(a.socket(id).unwrap().available, 8);
    assert!(a.socket(id).unwrap().is_open());
}

#[test]
fn half_closed_read_with_nothing_left_is_not_open() {
    let mut a = Adapter::new();
    let id = a.open().unwrap();
    let r = a.begin_read(id, &vec![Response::Closed(id)], 16);
    assert!(matches!(r, Err(nb::Error::Other(SocketError::SocketNotOpen))));
}

#[test]
fn half_closed_read_with_bytes_left_issues_receive() {
    let mut a = Adapter::new();
    let id = a.open().unwrap();
    let pending = vec![Response::DataAvailable { link_id: id, len: 2 }, Response::Closed(id)];
    match a.begin_read(id, &pending, 16) {
        Ok(Command::Receive { link_id, len }) => {
            assert_eq!(link_id, id);
            assert_eq!(len, 16);
        }
        _ => panic!("expected a receive command"),
    }
}

#[test]
fn closed_read_is_not_open() {
    let mut a = Adapter::new();
    let r = a.begin_read(0, &[], 8);
    assert!(matches!(r, Err(nb::Error::Other(SocketError::SocketNotOpen))));
    let r = a.begin_read(7, &[], 8);
    assert!(matches!(r, Err(nb::Error::Other(SocketError::SocketNotOpen))));
}

#[test]
fn open_read_with_nothing_buffered_would_block() {
    let mut a = Adapter::new();
    let id = a.open().unwrap();
    assert!(matches!(a.begin_read(id, &[], 8), Err(nb::Error::WouldBlock)));
}

#[test]
fn write_accepts_exact_reply_sequence() {
    let (sent, r) = run_write([Ok(Response::Ack), Ok(Response::ReadyForData), Ok(Response::SendOk(5))]);
    assert!(sent);
    assert_eq!(r.unwrap(), 5);
}

#[test]
fn write_with_substituted_reply_fails_without_sending() {
    let (sent, r) = run_write([Ok(Response::Ack), Ok(Response::Ack), Ok(Response::SendOk(5))]);
    assert!(!sent);
    assert!(matches!(r, Err(SocketError::WriteError)));
    let (sent, r) = run_write([Err(AdapterError::WriteError), Ok(Response::ReadyForData), Ok(Response::SendOk(5))]);
    assert!(!sent);
    assert!(matches!(r, Err(SocketError::WriteError)));
}

#[test]
fn write_without_send_ok_fails_after_sending() {
    let (sent, r) = run_write([Ok(Response::Ack), Ok(Response::ReadyForData), Ok(Response::Ack)]);
    assert!(sent);
    assert!(matches!(r, Err(SocketError::WriteError)));
}

#[test]
fn begin_write_folds_notifications_and_gives_send() {
    let mut a = Adapter::new();
    let id = a.open().unwrap();
    match a.begin_write(id, &vec![Response::DataAvailable { link_id: id, len: 6 }], 12) {
        Command::Send { link_id, len } => {
            assert_eq!(link_id, id);
            assert_eq!(len, 12);
        }
        _ => panic!("expected a send command"),
    }
    assert_eq!(a.socket(id).unwrap().available, 6);
}

#[test]
fn announced_bytes_round_trip_through_read() {
    let mut a = Adapter::new();
    for _ in 0..3 {
        a.open().unwrap();
    }
    assert!(a.begin_read(2, &vec![Response::DataAvailable { link_id: 2, len: 10 }], 32).is_ok());
    let data: Vec<u8> = (1..=10).collect();
    let mut buffer = [0u8; 32];
    let n = a.finish_read(2, &Ok(Response::DataReceived(data.clone(), 10)), &mut buffer).unwrap();
    assert_eq!(n, 10);
    assert_eq!(&buffer[..10], &data[..]);
    assert!(buffer[10..].iter().all(|b| *b == 0));
    assert_eq!(a.socket(2).unwrap().available, 0);
}

#[test]
fn read_with_wrong_reply_is_read_error() {
    let mut a = Adapter::new();
    let id = a.open().unwrap();
    a.process_notification(&Response::DataAvailable { link_id: id, len: 4 });
    let mut buffer = [0u8; 2];
    let r = a.finish_read(id, &Ok(Response::Ack), &mut buffer);
    assert!(matches!(r, Err(nb::Error::Other(SocketError::ReadError))));
    let r = a.finish_read(id, &Ok(Response::DataReceived(vec![1, 2, 3], 3)), &mut buffer);
    assert!(matches!(r, Err(nb::Error::Other(SocketError::ReadError))));
    assert_eq!(buffer, [0, 0]);
    assert_eq!(a.socket(id).unwrap().available, 4);
}

#[test]
fn partial_read_keeps_the_rest_counted() {
    let mut a = Adapter::new();
    let id = a.open().unwrap();
    a.process_notification(&Response::DataAvailable { link_id: id, len: 5 });
    let mut buffer = [0u8; 2];
    let n = a.finish_read(id, &Ok(Response::DataReceived(vec![7, 8, 9], 2)), &mut buffer).unwrap();
    assert_eq!(n, 2);
    assert_eq!(buffer, [7, 8]);
    assert_eq!(a.socket(id).unwrap().available, 3);
}

#[test]
fn connect_reply_marks_slot_connected() {
    let mut a = Adapter::new();
    for _ in 0..4 {
        a.open().unwrap();
    }
    assert!(a.connect_tcp_reply(3, &Ok(Response::Connect(3))).is_ok());
    assert_eq!(a.socket(3), Some(Socket { state: SocketState::Connected, available: 0 }));
}

#[test]
fn other_connect_reply_leaves_slot_unchanged() {
    let mut a = Adapter::new();
    for _ in 0..4 {
        a.open().unwrap();
    }
    let before = a.socket(3);
    assert!(matches!(a.connect_tcp_reply(3, &Ok(Response::Ack)), Err(SocketError::UnableToOpen)));
    assert!(matches!(a.connect_tcp_reply(3, &Err(AdapterError::Timeout)), Err(SocketError::UnableToOpen)));
    assert!(matches!(a.connect_tcp_reply(5, &Ok(Response::Connect(5))), Err(SocketError::UnableToOpen)));
    assert!(matches!(a.connect_tcp_reply(3, &Ok(Response::Connect(2))), Err(SocketError::UnableToOpen)));
    assert_eq!(a.socket(3), before);
}

#[test]
fn connect_command_names_tcp() {
    let remote = RemoteAddr { octets: [10, 0, 0, 1], port: 80 };
    match Adapter::connect_tcp(3, remote) {
        Command::StartConnection(3, _, r) => assert_eq!(r, remote),
        _ => panic!("expected a start-connection command"),
    }
}

#[test]
fn query_replies_are_judged() {
    let info = FirmwareInfo { major: 1, minor: 7, patch: 4, build: 0 };
    assert_eq!(Adapter::firmware_info_reply(&Ok(Response::FirmwareInfo(info))), Ok(info));
    assert_eq!(Adapter::firmware_info_reply(&Ok(Response::Ack)), Err(()));
    let addrs = IpAddresses { ip: [192, 168, 1, 2], mac: [1, 2, 3, 4, 5, 6] };
    assert_eq!(Adapter::ip_address_reply(&Ok(Response::IpAddresses(addrs))), Ok(addrs));
    assert_eq!(Adapter::ip_address_reply(&Err(AdapterError::WriteError)), Err(()));
}

#[test]
fn join_replies_are_judged() {
    assert_eq!(Adapter::join_reply(&Ok(Response::Ack)), Ok(()));
    assert_eq!(
        Adapter::join_reply(&Ok(Response::WifiConnectionFailure(WifiConnectionFailure::WrongPassword))),
        Err(WifiConnectionFailure::WrongPassword)
    );
    assert_eq!(Adapter::join_reply(&Ok(Response::ReadyForData)), Err(WifiConnectionFailure::ConnectionFailed));
    assert_eq!(Adapter::join_reply(&Err(AdapterError::Timeout)), Err(WifiConnectionFailure::ConnectionFailed));
}
