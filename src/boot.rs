//! Bringing the co-processor up: recognising its boot banner and the
//! acknowledgements of the setup commands, read byte by byte before any
//! queue exists.
use vstd::prelude::*;

verus! {

/// Room for the bytes read while waiting for the boot banner.
pub const BOOT_BUFFER: usize = 1024;

/// Room for the bytes read while waiting for one acknowledgement.
pub const ACK_BUFFER: usize = 64;

/// Read failures tolerated while waiting for the banner.
pub const MAX_READ_FAILURES: usize = 10_000;

/// `s` ends with `p`.
pub open spec fn ends_with(s: Seq<u8>, p: Seq<u8>) -> bool {
    p.len() <= s.len() && s.subrange(s.len() - p.len(), s.len() as int) == p
}

/// `ready\r\n`, printed by the co-processor once it has booted.
pub open spec fn ready_banner() -> Seq<u8> {
    seq![114u8, 101u8, 97u8, 100u8, 121u8, 13u8, 10u8]
}

/// `OK\r\n`, which ends an acknowledged command.
pub open spec fn ok_terminator() -> Seq<u8> {
    seq![79u8, 75u8, 13u8, 10u8]
}

/// The setup commands sent after the banner, in order: echo off
/// (`ATE0`), multiplexed links on (`AT+CIPMUX=1`), and data pulled on
/// request (`AT+CIPRECVMODE=1`), each ended by CR-LF.
pub open spec fn setup_command_spec(step: int) -> Seq<u8> {
    if step == 0 {
        seq![65u8, 84u8, 69u8, 48u8, 13u8, 10u8]
    } else if step == 1 {
        seq![65u8, 84u8, 43u8, 67u8, 73u8, 80u8, 77u8, 85u8, 88u8, 61u8, 49u8, 13u8, 10u8]
    } else if step == 2 {
        seq![
            65u8, 84u8, 43u8, 67u8, 73u8, 80u8, 82u8, 69u8, 67u8, 86u8, 77u8, 79u8, 68u8, 69u8,
            61u8, 49u8, 13u8, 10u8,
        ]
    } else {
        Seq::empty()
    }
}

/// The number of setup commands.
pub const SETUP_STEPS: usize = 3;

/// What one read of the byte source gave.
#[derive(Debug, Clone, Copy, PartialEq, Eq, Structural)]
pub enum ReadEvent {
    Byte(u8),
    /// No byte yet; try again.
    WouldBlock,
    /// The source reported an error.
    Failed,
}

/// How a wait stands after one read.
#[derive(Debug, Clone, Copy, PartialEq, Eq, Structural)]
pub enum Progress {
    Pending,
    Done,
    Failed,
}

/// Whether the bytes of `buf` end with those of `pat`.
pub fn tail_matches(buf: &Vec<u8>, pat: &[u8]) -> (r: bool)
    ensures
        r == ends_with(buf@, pat@),
{
    if pat.len() > buf.len() {
        return false;
    }
    let start: usize = buf.len() - pat.len();
    let mut i: usize = 0;
    while i < pat.len()
        invariant
            start + pat@.len() == buf@.len(),
            buf@.len() <= usize::MAX,
            i <= pat@.len(),
            forall|j: int| 0 <= j < i ==> buf@[start + j] == pat@[j],
        decreases pat@.len() - i,
    {
        if buf[start + i] != pat[i] {
            assert(buf@.subrange(start as int, buf@.len() as int)[i as int] != pat@[i as int]);
            return false;
        }
        i = i + 1;
    }
    assert(buf@.subrange(start as int, buf@.len() as int) =~= pat@);
    true
}

/// The setup command of step `step`, if there is one.
pub fn setup_command(step: usize) -> (r: Option<Vec<u8>>)
    ensures
        step < SETUP_STEPS ==> r is Some && r->0@ == setup_command_spec(step as int),
        step >= SETUP_STEPS ==> r is None,
{
    if step == 0 {
        let a: [u8; 6] = [65u8, 84u8, 69u8, 48u8, 13u8, 10u8];
        Some(bytes_of(&a))
    } else if step == 1 {
        let a: [u8; 13] = [65u8, 84u8, 43u8, 67u8, 73u8, 80u8, 77u8, 85u8, 88u8, 61u8, 49u8, 13u8, 10u8];
        Some(bytes_of(&a))
    } else if step == 2 {
        let a: [u8; 18] = [
            65u8, 84u8, 43u8, 67u8, 73u8, 80u8, 82u8, 69u8, 67u8, 86u8, 77u8, 79u8, 68u8, 69u8, 61u8,
            49u8, 13u8, 10u8,
        ];
        Some(bytes_of(&a))
    } else {
        None
    }
}

/// The bytes of `a`, in a vector.
pub fn bytes_of(a: &[u8]) -> (r: Vec<u8>)
    ensures
        r@ == a@,
{
    let mut r: Vec<u8> = Vec::new();
    let mut i: usize = 0;
    while i < a.len()
        invariant
            i <= a@.len(),
            r@ == a@.subrange(0, i as int),
        decreases a@.len() - i,
    {
        r.push(a[i]);
        i = i + 1;
        assert(r@ =~= a@.subrange(0, i as int));
    }
    assert(a@.subrange(0, a@.len() as int) =~= a@);
    r
}

fn ready_pattern() -> (r: [u8; 7])
    ensures
        r@ == ready_banner(),
{
    let r: [u8; 7] = [114u8, 101u8, 97u8, 100u8, 121u8, 13u8, 10u8];
    assert(r@ =~= ready_banner());
    r
}

fn ok_pattern() -> (r: [u8; 4])
    ensures
        r@ == ok_terminator(),
{
    let r: [u8; 4] = [79u8, 75u8, 13u8, 10u8];
    assert(r@ =~= ok_terminator());
    r
}

/// The wait for the boot banner: the bytes read so far and the read
/// failures counted so far.
pub struct BootWatch {
    received: Vec<u8>,
    failures: usize,
}

/// How the wait for the banner goes on after one read: a byte is kept, and
/// the wait is done once the bytes end with the banner, or failed when no
/// room was left for it; "no byte yet" changes nothing; a failure is counted,
/// and the wait fails on the first one past the budget.
pub open spec fn boot_step(received: Seq<u8>, failures: nat, ev: ReadEvent) -> (Seq<u8>, nat, Progress) {
    match ev {
        ReadEvent::Byte(b) => if received.len() >= BOOT_BUFFER {
            (received, failures, Progress::Failed)
        } else {
            let next = received.push(b);
            (next, failures, if ends_with(next, ready_banner()) { Progress::Done } else { Progress::Pending })
        },
        ReadEvent::WouldBlock => (received, failures, Progress::Pending),
        ReadEvent::Failed => if failures > MAX_READ_FAILURES {
            (received, failures, Progress::Failed)
        } else {
            (received, failures + 1, Progress::Pending)
        },
    }
}

impl BootWatch {
    pub closed spec fn received(&self) -> Seq<u8> {
        self.received@
    }

    pub closed spec fn failures(&self) -> nat {
        self.failures as nat
    }

    pub closed spec fn wf(&self) -> bool {
        self.received@.len() <= BOOT_BUFFER && self.failures <= MAX_READ_FAILURES + 1
    }

    pub fn new() -> (r: BootWatch)
        ensures
            r.wf(),
            r.received() == Seq::<u8>::empty(),
            r.failures() == 0,
    {
        BootWatch { received: Vec::new(), failures: 0 }
    }

    /// Takes the outcome of one read of the byte source.
    pub fn on_read(&mut self, ev: ReadEvent) -> (r: Progress)
        requires
            old(self).wf(),
        ensures
            final(self).wf(),
            (final(self).received(), final(self).failures(), r) == boot_step(
                old(self).received(),
                old(self).failures(),
                ev,
            ),
    {
        match ev {
            ReadEvent::Byte(b) => {
                if self.received.len() >= BOOT_BUFFER {
                    return Progress::Failed;
                }
                self.received.push(b);
                let pat = ready_pattern();
                if tail_matches(&self.received, &pat) {
                    Progress::Done
                } else {
                    Progress::Pending
                }
            },
            ReadEvent::WouldBlock => Progress::Pending,
            ReadEvent::Failed => {
                if self.failures > MAX_READ_FAILURES {
                    Progress::Failed
                } else {
                    self.failures = self.failures + 1;
                    Progress::Pending
                }
            },
        }
    }
}

/// The wait for the acknowledgement of one setup command.
pub struct AckWatch {
    received: Vec<u8>,
}

/// How the wait for `OK\r\n` goes on after one read: a byte is kept, and the
/// wait is done once the bytes end with it, or failed when no room was left;
/// "no byte yet" changes nothing; a read failure ends the wait.
pub open spec fn ack_step(received: Seq<u8>, ev: ReadEvent) -> (Seq<u8>, Progress) {
    match ev {
        ReadEvent::Byte(b) => if received.len() >= ACK_BUFFER {
            (received, Progress::Failed)
        } else {
            let next = received.push(b);
            (next, if ends_with(next, ok_terminator()) { Progress::Done } else { Progress::Pending })
        },
        ReadEvent::WouldBlock => (received, Progress::Pending),
        ReadEvent::Failed => (received, Progress::Failed),
    }
}

impl AckWatch {
    pub closed spec fn received(&self) -> Seq<u8> {
        self.received@
    }

    pub closed spec fn wf(&self) -> bool {
        self.received@.len() <= ACK_BUFFER
    }

    pub fn new() -> (r: AckWatch)
        ensures
            r.wf(),
            r.received() == Seq::<u8>::empty(),
    {
        AckWatch { received: Vec::new() }
    }

    /// Takes the outcome of one read of the byte source.
    pub fn on_read(&mut self, ev: ReadEvent) -> (r: Progress)
        requires
            old(self).wf(),
        ensures
            final(self).wf(),
            (final(self).received(), r) == ack_step(old(self).received(), ev),
    {
        match ev {
            ReadEvent::Byte(b) => {
                if self.received.len() >= ACK_BUFFER {
                    return Progress::Failed;
                }
                self.received.push(b);
                let pat = ok_pattern();
                if tail_matches(&self.received, &pat) {
                    Progress::Done
                } else {
                    Progress::Pending
                }
            },
            ReadEvent::WouldBlock => Progress::Pending,
            ReadEvent::Failed => Progress::Failed,
        }
    }
}

} // verus!
