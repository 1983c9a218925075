use drogue_esp8266::protocol::{Command, ConnectionType, RemoteAddr};

#[test]
fn query_commands_are_framed() {
    assert_eq!(Command::QueryFirmwareInfo.as_bytes(), b"AT+GMR\r\n".to_vec());
    assert_eq!(Command::QueryIpAddress.as_bytes(), b"AT+CIFSR\r\n".to_vec());
}

#[test]
fn join_command_quotes_credentials() {
    let c = Command::JoinAp { ssid: b"home".to_vec(), password: b"pass1234".to_vec() };
    assert_eq!(c.as_bytes(), b"AT+CWJAP=\"home\",\"pass1234\"\r\n".to_vec());
}

#[test]
fn start_connection_command_spells_address() {
    let c = Command::StartConnection(3, ConnectionType::TCP, RemoteAddr { octets: [192, 168, 0, 10], port: 8080 });
    assert_eq!(c.as_bytes(), b"AT+CIPSTART=3,\"TCP\",\"192.168.0.10\",8080\r\n".to_vec());
}

#[test]
fn send_and_receive_commands_carry_lengths() {
    assert_eq!(Command::Send { link_id: 0, len: 1460 }.as_bytes(), b"AT+CIPSEND=0,1460\r\n".to_vec());
    assert_eq!(Command::Receive { link_id: 4, len: 0 }.as_bytes(), b"AT+CIPRECVDATA=4,0\r\n".to_vec());
}
