//! The logical commands sent to the co-processor and the values it answers with.
use vstd::prelude::*;

verus! {

/// Firmware version reported by the co-processor.
#[derive(Debug, Clone, Copy, PartialEq, Eq, Structural)]
pub struct FirmwareInfo {
    pub major: u8,
    pub minor: u8,
    pub patch: u8,
    pub build: u8,
}

/// The station's IPv4 address and MAC address.
#[derive(Debug, Clone, Copy, PartialEq, Eq)]
pub struct IpAddresses {
    pub ip: [u8; 4],
    pub mac: [u8; 6],
}

/// Why joining an access point failed.
#[derive(Debug, Clone, Copy, PartialEq, Eq, Structural)]
pub enum WifiConnectionFailure {
    Timeout,
    WrongPassword,
    CannotFindTargetAp,
    ConnectionFailed,
}

/// Transport kind of a link.
#[derive(Debug, Clone, Copy, PartialEq, Eq, Structural)]
pub enum ConnectionType {
    TCP,
    UDP,
}

/// An IPv4 endpoint: four address octets and a port.
#[derive(Debug, Clone, Copy, PartialEq, Eq)]
pub struct RemoteAddr {
    pub octets: [u8; 4],
    pub port: u16,
}

/// A decoded frame from the co-processor: a reply to a command or an
/// unsolicited notification.
#[derive(Debug, Clone)]
pub enum Response {
    /// The plain `OK` acknowledgement.
    Ack,
    FirmwareInfo(FirmwareInfo),
    IpAddresses(IpAddresses),
    WifiConnectionFailure(WifiConnectionFailure),
    Connect(usize),
    Closed(usize),
    DataAvailable { link_id: usize, len: usize },
    ReadyForData,
    SendOk(usize),
    DataReceived(Vec<u8>, usize),
}

/// A command to the co-processor.
#[derive(Debug, Clone)]
pub enum Command {
    QueryFirmwareInfo,
    QueryIpAddress,
    JoinAp { ssid: Vec<u8>, password: Vec<u8> },
    StartConnection(usize, ConnectionType, RemoteAddr),
    Send { link_id: usize, len: usize },
    Receive { link_id: usize, len: usize },
}

/// The fixed pieces of command text.
#[derive(Debug, Clone, Copy, PartialEq, Eq, Structural)]
pub enum Token {
    /// `AT+GMR`
    Gmr,
    /// `AT+CIFSR`
    Cifsr,
    /// `AT+CWJAP="`
    Cwjap,
    /// `","`
    QuoteCommaQuote,
    /// `"`
    Quote,
    /// `AT+CIPSTART=`
    Cipstart,
    /// `,"`
    CommaQuote,
    /// `TCP`
    Tcp,
    /// `UDP`
    Udp,
    /// `.`
    Dot,
    /// `",`
    QuoteComma,
    /// `AT+CIPSEND=`
    Cipsend,
    /// `,`
    Comma,
    /// `AT+CIPRECVDATA=`
    Ciprecvdata,
    /// `\r\n`
    Crlf,
}

pub open spec fn token_text(t: Token) -> Seq<u8> {
    match t {
        Token::Gmr => seq![65u8, 84u8, 43u8, 71u8, 77u8, 82u8],
        Token::Cifsr => seq![65u8, 84u8, 43u8, 67u8, 73u8, 70u8, 83u8, 82u8],
        Token::Cwjap => seq![65u8, 84u8, 43u8, 67u8, 87u8, 74u8, 65u8, 80u8, 61u8, 34u8],
        Token::QuoteCommaQuote => seq![34u8, 44u8, 34u8],
        Token::Quote => seq![34u8],
        Token::Cipstart => seq![65u8, 84u8, 43u8, 67u8, 73u8, 80u8, 83u8, 84u8, 65u8, 82u8, 84u8, 61u8],
        Token::CommaQuote => seq![44u8, 34u8],
        Token::Tcp => seq![84u8, 67u8, 80u8],
        Token::Udp => seq![85u8, 68u8, 80u8],
        Token::Dot => seq![46u8],
        Token::QuoteComma => seq![34u8, 44u8],
        Token::Cipsend => seq![65u8, 84u8, 43u8, 67u8, 73u8, 80u8, 83u8, 69u8, 78u8, 68u8, 61u8],
        Token::Comma => seq![44u8],
        Token::Ciprecvdata => seq![65u8, 84u8, 43u8, 67u8, 73u8, 80u8, 82u8, 69u8, 67u8, 86u8, 68u8, 65u8, 84u8, 65u8, 61u8],
        Token::Crlf => seq![13u8, 10u8],
    }
}

/// The decimal digits of `n`, most significant first, with no leading zero.
pub open spec fn decimal(n: nat) -> Seq<u8>
    decreases n,
{
    if n < 10 {
        seq![(48 + n) as u8]
    } else {
        decimal(n / 10).push((48 + n % 10) as u8)
    }
}

pub open spec fn connection_text(k: ConnectionType) -> Seq<u8> {
    match k {
        ConnectionType::TCP => token_text(Token::Tcp),
        ConnectionType::UDP => token_text(Token::Udp),
    }
}

/// The dotted-decimal form of an IPv4 address.
pub open spec fn dotted(o: Seq<u8>) -> Seq<u8> {
    decimal(o[0] as nat) + token_text(Token::Dot) + decimal(o[1] as nat) + token_text(Token::Dot)
        + decimal(o[2] as nat) + token_text(Token::Dot) + decimal(o[3] as nat)
}

/// The text of a command, without its line ending.
pub open spec fn command_text(c: Command) -> Seq<u8> {
    match c {
        Command::QueryFirmwareInfo => token_text(Token::Gmr),
        Command::QueryIpAddress => token_text(Token::Cifsr),
        Command::JoinAp { ssid, password } => token_text(Token::Cwjap) + ssid@ + token_text(Token::QuoteCommaQuote)
            + password@ + token_text(Token::Quote),
        Command::StartConnection(link_id, kind, remote) => token_text(Token::Cipstart) + decimal(link_id as nat)
            + token_text(Token::CommaQuote) + connection_text(kind) + token_text(Token::QuoteCommaQuote)
            + dotted(remote.octets@) + token_text(Token::QuoteComma) + decimal(remote.port as nat),
        Command::Send { link_id, len } => token_text(Token::Cipsend) + decimal(link_id as nat)
            + token_text(Token::Comma) + decimal(len as nat),
        Command::Receive { link_id, len } => token_text(Token::Ciprecvdata) + decimal(link_id as nat)
            + token_text(Token::Comma) + decimal(len as nat),
    }
}

/// What goes on the wire for a command: its text, then CR-LF.
pub open spec fn command_frame(c: Command) -> Seq<u8> {
    command_text(c) + token_text(Token::Crlf)
}

fn push_all(out: &mut Vec<u8>, a: &[u8])
    ensures
        final(out)@ == old(out)@ + a@,
{
    let mut i: usize = 0;
    while i < a.len()
        invariant
            i <= a@.len(),
            out@ == old(out)@ + a@.subrange(0, i as int),
        decreases a@.len() - i,
    {
        out.push(a[i]);
        i = i + 1;
        assert(out@ =~= old(out)@ + a@.subrange(0, i as int));
    }
    assert(a@.subrange(0, a@.len() as int) =~= a@);
}

fn push_token(out: &mut Vec<u8>, t: Token)
    ensures
        final(out)@ == old(out)@ + token_text(t),
{
    match t {
        Token::Gmr => {
            let a: [u8; 6] = [65u8, 84u8, 43u8, 71u8, 77u8, 82u8];
            assert(a@ =~= token_text(t));
            push_all(out, &a);
        },
        Token::Cifsr => {
            let a: [u8; 8] = [65u8, 84u8, 43u8, 67u8, 73u8, 70u8, 83u8, 82u8];
            assert(a@ =~= token_text(t));
            push_all(out, &a);
        },
        Token::Cwjap => {
            let a: [u8; 10] = [65u8, 84u8, 43u8, 67u8, 87u8, 74u8, 65u8, 80u8, 61u8, 34u8];
            assert(a@ =~= token_text(t));
            push_all(out, &a);
        },
        Token::QuoteCommaQuote => {
            let a: [u8; 3] = [34u8, 44u8, 34u8];
            assert(a@ =~= token_text(t));
            push_all(out, &a);
        },
        Token::Quote => {
            let a: [u8; 1] = [34u8];
            assert(a@ =~= token_text(t));
            push_all(out, &a);
        },
        Token::Cipstart => {
            let a: [u8; 12] = [65u8, 84u8, 43u8, 67u8, 73u8, 80u8, 83u8, 84u8, 65u8, 82u8, 84u8, 61u8];
            assert(a@ =~= token_text(t));
            push_all(out, &a);
        },
        Token::CommaQuote => {
            let a: [u8; 2] = [44u8, 34u8];
            assert(a@ =~= token_text(t));
            push_all(out, &a);
        },
        Token::Tcp => {
            let a: [u8; 3] = [84u8, 67u8, 80u8];
            assert(a@ =~= token_text(t));
            push_all(out, &a);
        },
        Token::Udp => {
            let a: [u8; 3] = [85u8, 68u8, 80u8];
            assert(a@ =~= token_text(t));
            push_all(out, &a);
        },
        Token::Dot => {
            let a: [u8; 1] = [46u8];
            assert(a@ =~= token_text(t));
            push_all(out, &a);
        },
        Token::QuoteComma => {
            let a: [u8; 2] = [34u8, 44u8];
            assert(a@ =~= token_text(t));
            push_all(out, &a);
        },
        Token::Cipsend => {
            let a: [u8; 11] = [65u8, 84u8, 43u8, 67u8, 73u8, 80u8, 83u8, 69u8, 78u8, 68u8, 61u8];
            assert(a@ =~= token_text(t));
            push_all(out, &a);
        },
        Token::Comma => {
            let a: [u8; 1] = [44u8];
            assert(a@ =~= token_text(t));
            push_all(out, &a);
        },
        Token::Ciprecvdata => {
            let a: [u8; 15] = [65u8, 84u8, 43u8, 67u8, 73u8, 80u8, 82u8, 69u8, 67u8, 86u8, 68u8, 65u8, 84u8, 65u8, 61u8];
            assert(a@ =~= token_text(t));
            push_all(out, &a);
        },
        Token::Crlf => {
            let a: [u8; 2] = [13u8, 10u8];
            assert(a@ =~= token_text(t));
            push_all(out, &a);
        },
    }
}

fn push_decimal(out: &mut Vec<u8>, n: usize)
    ensures
        final(out)@ == old(out)@ + decimal(n as nat),
    decreases n,
{
    let ghost start = out@;
    if n >= 10 {
        push_decimal(out, n / 10);
    }
    let digit: u8 = (n % 10) as u8;
    out.push(48u8 + digit);
    if n >= 10 {
        assert(out@ =~= start + decimal(n as nat));
    } else {
        assert(out@ =~= start + decimal(n as nat));
    }
}

fn push_join(out: &mut Vec<u8>, ssid: &Vec<u8>, password: &Vec<u8>)
    ensures
        final(out)@ == old(out)@ + (token_text(Token::Cwjap) + ssid@ + token_text(Token::QuoteCommaQuote) + password@
            + token_text(Token::Quote)),
{
    let ghost start = out@;
    push_token(out, Token::Cwjap);
    push_all(out, ssid.as_slice());
    push_token(out, Token::QuoteCommaQuote);
    push_all(out, password.as_slice());
    push_token(out, Token::Quote);
    assert(out@ =~= start + (token_text(Token::Cwjap) + ssid@ + token_text(Token::QuoteCommaQuote) + password@
        + token_text(Token::Quote)));
}

fn push_dotted(out: &mut Vec<u8>, o: &[u8; 4])
    ensures
        final(out)@ == old(out)@ + dotted(o@),
{
    let ghost start = out@;
    push_decimal(out, o[0] as usize);
    push_token(out, Token::Dot);
    push_decimal(out, o[1] as usize);
    push_token(out, Token::Dot);
    push_decimal(out, o[2] as usize);
    push_token(out, Token::Dot);
    push_decimal(out, o[3] as usize);
    assert(out@ =~= start + dotted(o@));
}

fn push_start_connection(out: &mut Vec<u8>, link_id: usize, kind: ConnectionType, remote: &RemoteAddr)
    ensures
        final(out)@ == old(out)@ + command_text(Command::StartConnection(link_id, kind, *remote)),
{
    let ghost start = out@;
    push_token(out, Token::Cipstart);
    push_decimal(out, link_id);
    push_token(out, Token::CommaQuote);
    match kind {
        ConnectionType::TCP => push_token(out, Token::Tcp),
        ConnectionType::UDP => push_token(out, Token::Udp),
    }
    push_token(out, Token::QuoteCommaQuote);
    push_dotted(out, &remote.octets);
    push_token(out, Token::QuoteComma);
    push_decimal(out, remote.port as usize);
    assert(out@ =~= start + command_text(Command::StartConnection(link_id, kind, *remote)));
}

fn push_link_len(out: &mut Vec<u8>, head: Token, link_id: usize, len: usize)
    ensures
        final(out)@ == old(out)@ + (token_text(head) + decimal(link_id as nat) + token_text(Token::Comma)
            + decimal(len as nat)),
{
    let ghost start = out@;
    push_token(out, head);
    push_decimal(out, link_id);
    push_token(out, Token::Comma);
    push_decimal(out, len);
    assert(out@ =~= start + (token_text(head) + decimal(link_id as nat) + token_text(Token::Comma)
        + decimal(len as nat)));
}

impl Command {
    /// The bytes to write for this command, line ending included.
    pub fn as_bytes(&self) -> (r: Vec<u8>)
        ensures
            r@ == command_frame(*self),
    {
        let mut out: Vec<u8> = Vec::new();
        match self {
            Command::QueryFirmwareInfo => push_token(&mut out, Token::Gmr),
            Command::QueryIpAddress => push_token(&mut out, Token::Cifsr),
            Command::JoinAp { ssid, password } => push_join(&mut out, ssid, password),
            Command::StartConnection(link_id, kind, remote) => push_start_connection(&mut out, *link_id, *kind, remote),
            Command::Send { link_id, len } => push_link_len(&mut out, Token::Cipsend, *link_id, *len),
            Command::Receive { link_id, len } => push_link_len(&mut out, Token::Ciprecvdata, *link_id, *len),
        }
        assert(out@ =~= command_text(*self));
        push_token(&mut out, Token::Crlf);
        out
    }
}

} // verus!
