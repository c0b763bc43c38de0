//! The recorder's transaction engine: one command/response exchange with
//! break handling, timed polling, validation and bounded retries, written as
//! a state machine that asks its driver for each I/O step.

use vstd::prelude::*;
use vstd::slice::{slice_subrange, slice_to_vec};

use crate::address::{addr_value_ok, Sdi12Addr};
use crate::command::{
    command_buffer_as_bytes, Command, CommandFormatError, IdentifyMeasurementParameterCommand,
    COMMAND_CAPACITY,
};
use crate::crc::{crc16_arc, crc_ascii_value, verify_response_crc_ascii};
use crate::error::Sdi12Error;
use crate::frame::FrameFormat;
use crate::timing::{
    BREAK_DURATION_MIN_US, BYTE_DURATION_US, INTER_CHARACTER_MARKING_MAX_US,
    POST_BREAK_MARKING_MIN_US, PRE_COMMAND_BREAK_MARKING_THRESHOLD_US, RESPONSE_START_TIME_MAX_US,
};

verus! {

/// Attempts per transaction.
pub const MAX_ATTEMPTS: u8 = 3;

/// Wait between attempts; above the protocol's 16.67 ms minimum.
pub const RETRY_DELAY_US: u32 = 20_000;

/// Pause between two polls of an operation that would block.
pub const POLL_DELAY_US: u32 = 100;

/// Deadline for sending a break.
pub const BREAK_TIMEOUT_US: u64 = BREAK_DURATION_MIN_US + 5_000;

/// Deadline for a flush.
pub const FLUSH_TIMEOUT_US: u64 = 10_000;

/// Longest response line the read deadline allows for.
pub const MAX_RESPONSE_LEN: u64 = 96;

/// Deadline for the first byte of a response.
pub const READ_TIMEOUT_US: u64 = RESPONSE_START_TIME_MAX_US + BYTE_DURATION_US * MAX_RESPONSE_LEN
    + 50_000;

/// Deadline for each later byte of a response.
pub const INTER_BYTE_TIMEOUT_US: u64 = INTER_CHARACTER_MARKING_MAX_US + 5_000;

/// `now + d`, saturating.
pub open spec fn deadline_after(now: u64, d: nat) -> u64 {
    if now + d > u64::MAX {
        u64::MAX
    } else {
        (now + d) as u64
    }
}

fn deadline(now: u64, d: u64) -> (r: u64)
    ensures
        r == deadline_after(now, d as nat),
{
    if now > u64::MAX - d {
        u64::MAX
    } else {
        now + d
    }
}

// ---- Decisions ----

/// A break is needed when the bus has no recorded activity or has been quiet
/// for longer than the pre-command threshold.
pub open spec fn break_needed_spec(now: u64, last_activity: Option<u64>) -> bool {
    match last_activity {
        None => true,
        Some(t) => now > t && now - t > PRE_COMMAND_BREAK_MARKING_THRESHOLD_US,
    }
}

pub fn break_needed(now: u64, last_activity: Option<u64>) -> (r: bool)
    ensures
        r == break_needed_spec(now, last_activity),
{
    match last_activity {
        None => true,
        Some(t) => now > t && now - t > PRE_COMMAND_BREAK_MARKING_THRESHOLD_US,
    }
}

impl Command {
    /// True of the commands whose response carries a CRC.
    pub open spec fn spec_requests_crc(self) -> bool {
        match self {
            Command::StartMeasurementCRC { .. } => true,
            Command::StartConcurrentMeasurementCRC { .. } => true,
            Command::ReadContinuousCRC { .. } => true,
            Command::IdentifyMeasurementParameter(p) => match p {
                IdentifyMeasurementParameterCommand::MeasurementCRC { .. } => true,
                IdentifyMeasurementParameterCommand::ConcurrentMeasurementCRC { .. } => true,
                IdentifyMeasurementParameterCommand::ReadContinuousCRC { .. } => true,
                _ => false,
            },
            _ => false,
        }
    }

    pub fn requests_crc(&self) -> (r: bool)
        ensures
            r == self.spec_requests_crc(),
    {
        match self {
            Command::StartMeasurementCRC { .. } => true,
            Command::StartConcurrentMeasurementCRC { .. } => true,
            Command::ReadContinuousCRC { .. } => true,
            Command::IdentifyMeasurementParameter(p) => match p {
                IdentifyMeasurementParameterCommand::MeasurementCRC { .. } => true,
                IdentifyMeasurementParameterCommand::ConcurrentMeasurementCRC { .. } => true,
                IdentifyMeasurementParameterCommand::ReadContinuousCRC { .. } => true,
                _ => false,
            },
            _ => false,
        }
    }
}

/// The payload bounds of a response line to `cmd`, or why it is refused: the
/// line must end in `<CR><LF>`, start with the address the command was sent
/// to (any sensor address, not `?`, for the address query), and carry a matching ASCII CRC
/// when the command asked for one.
pub open spec fn payload_bounds_spec<E>(line: Seq<u8>, cmd: Command) -> Result<
    (usize, usize),
    Sdi12Error<E>,
> {
    let n = line.len();
    if n < 3 || line[n - 2] != ('\r' as u8) || line[n - 1] != ('\n' as u8) {
        Err(Sdi12Error::InvalidFormat)
    } else {
        let m = n - 2;
        let rc = line[0] as char;
        if !addr_value_ok(rc) || rc == '?' {
            Err(Sdi12Error::InvalidAddress(rc))
        } else if !(cmd is AddressQuery) && rc != cmd.spec_address() {
            Err(Sdi12Error::UnexpectedResponse)
        } else if cmd.spec_requests_crc() {
            if m < 4 {
                Err(Sdi12Error::InvalidFormat)
            } else {
                let calculated = crc16_arc(line.subrange(0, m - 3));
                let received = crc_ascii_value(line[m - 3], line[m - 2], line[m - 1]);
                if calculated != received {
                    Err(Sdi12Error::CrcMismatch { expected: received, calculated })
                } else {
                    Ok((1usize, (m - 3) as usize))
                }
            }
        } else {
            Ok((1usize, m as usize))
        }
    }
}

/// Validates a response line against the command it answers and returns the
/// bounds of its payload (after the address, before any CRC and the
/// `<CR><LF>`).
pub fn process_response_payload<E>(response_line: &[u8], sent_cmd: &Command) -> (r: Result<
    (usize, usize),
    Sdi12Error<E>,
>)
    ensures
        r == payload_bounds_spec::<E>(response_line@, *sent_cmd),
{
    let n = response_line.len();
    if n < 3 || response_line[n - 2] != '\r' as u8 || response_line[n - 1] != '\n' as u8 {
        return Err(Sdi12Error::InvalidFormat);
    }
    let m = n - 2;
    let without_crlf = slice_subrange(response_line, 0, m);
    let received_char = response_line[0] as char;
    if received_char == '?' {
        return Err(Sdi12Error::InvalidAddress(received_char));
    }
    let received = match Sdi12Addr::new::<E>(received_char) {
        Ok(a) => a,
        Err(_) => {
            return Err(Sdi12Error::InvalidAddress(received_char));
        },
    };
    match sent_cmd {
        Command::AddressQuery => {},
        _ => {
            if received.as_char() != sent_cmd.address().as_char() {
                return Err(Sdi12Error::UnexpectedResponse);
            }
        },
    }
    if sent_cmd.requests_crc() {
        if m < 4 {
            return Err(Sdi12Error::InvalidFormat);
        }
        assert(without_crlf@.subrange(0, m - 3) =~= response_line@.subrange(0, m - 3));
        match verify_response_crc_ascii::<E>(without_crlf) {
            Ok(()) => Ok((1, m - 3)),
            Err(e) => {
                match e {
                    Sdi12Error::CrcMismatch { expected, calculated } => Err(
                        Sdi12Error::CrcMismatch { expected, calculated },
                    ),
                    _ => Err(Sdi12Error::InvalidFormat),
                }
            },
        }
    } else {
        Ok((1, m))
    }
}

/// What ends a failed attempt that may be retried.
#[derive(Debug, Copy, Clone, PartialEq, Eq, Structural)]
pub enum RetryableFailure {
    /// No byte arrived before the deadline.
    Timeout,
    /// Some bytes arrived, but no `<CR><LF>` before the deadline.
    IncompleteLine,
}

/// What to do after a failed attempt.
#[derive(Debug, Copy, Clone, PartialEq, Eq, Structural)]
pub enum RetryDecision {
    /// Wait this long, then try again.
    Wait { us: u32 },
    /// No attempt left: report this error.
    GiveUp(RetryableFailure),
}

/// After attempt `attempt` (counted from 0) failed with `f`: wait and retry
/// while attempts remain, else give up with `f`.
pub open spec fn retry_decision_spec(attempt: u8, f: RetryableFailure) -> RetryDecision {
    if attempt + 1 < MAX_ATTEMPTS {
        RetryDecision::Wait { us: RETRY_DELAY_US }
    } else {
        RetryDecision::GiveUp(f)
    }
}

pub fn retry_decision(attempt: u8, f: RetryableFailure) -> (r: RetryDecision)
    requires
        attempt < MAX_ATTEMPTS,
    ensures
        r == retry_decision_spec(attempt, f),
{
    if attempt + 1 < MAX_ATTEMPTS {
        RetryDecision::Wait { us: RETRY_DELAY_US }
    } else {
        RetryDecision::GiveUp(f)
    }
}

/// The error reported for a failure that exhausted the attempts.
pub open spec fn failure_error<E>(f: RetryableFailure) -> Sdi12Error<E> {
    match f {
        RetryableFailure::Timeout => Sdi12Error::Timeout,
        RetryableFailure::IncompleteLine => Sdi12Error::InvalidFormat,
    }
}

// ---- The transaction state machine ----

/// An I/O step the driver performs for the transaction.
#[derive(Debug, Copy, Clone, PartialEq, Eq, Structural)]
pub enum IoRequest {
    /// Poll the collaborator's `send_break`.
    SendBreak,
    /// Block for at least this many microseconds.
    Delay { us: u32 },
    /// Reconfigure the line.
    SetFraming(FrameFormat),
    /// Poll `write_byte` with this byte.
    WriteByte(u8),
    /// Poll `flush`.
    Flush,
    /// Poll `read_byte`.
    ReadByte,
}

/// The outcome of the last request, as the collaborator reported it.
#[derive(Debug, Clone, PartialEq, Eq)]
pub enum IoEvent<E> {
    /// The request completed.
    Done,
    /// A byte was read.
    Byte(u8),
    /// The request would block; nothing happened.
    WouldBlock,
    /// The collaborator failed.
    Failed(E),
}

/// What the transaction asks of its driver next.
#[derive(Debug, PartialEq, Eq)]
pub enum Step<E> {
    Perform(IoRequest),
    /// The exchange is over: payload bounds within `line()`, or the error.
    Finished(Result<(usize, usize), Sdi12Error<E>>),
}

/// The operation being polled.
#[derive(Debug, Copy, Clone, PartialEq, Eq, Structural)]
pub enum PollOp {
    Break,
    Write(usize),
    Flush,
    Read,
}

/// Where the transaction stands.
#[derive(Debug, Copy, Clone, PartialEq, Eq, Structural)]
pub enum Phase {
    /// Nothing done yet: the first step decides on a break.
    Start,
    /// Polling `op` until `deadline`; `delaying` while the pause between two
    /// polls is pending.
    Polling { op: PollOp, deadline: u64, delaying: bool },
    /// The post-break marking delay is pending.
    PostBreak,
    /// The framing request is pending.
    Configure,
    /// The wait before the next attempt is pending.
    RetryWait,
    /// Finished.
    Done,
}

/// The error `format_into` reports for a command that does not fit.
pub open spec fn format_error_of(c: Command) -> CommandFormatError {
    if c is ExtendedCommand {
        CommandFormatError::BufferOverflow
    } else {
        CommandFormatError::FmtError
    }
}

/// True of a line that ends in `<CR><LF>`.
pub open spec fn ends_with_crlf(l: Seq<u8>) -> bool {
    l.len() >= 2 && l[l.len() - 2] == ('\r' as u8) && l[l.len() - 1] == ('\n' as u8)
}

/// The `needed` of an overflow after `n` bytes.
pub open spec fn overflow_needed(n: nat) -> usize {
    if n < usize::MAX {
        (n + 1) as usize
    } else {
        n as usize
    }
}

/// The control state of a transaction: everything its decisions read.
#[derive(Debug, Copy, Clone, PartialEq, Eq, Structural)]
pub struct Control {
    pub phase: Phase,
    pub attempt: u8,
    pub last_activity: Option<u64>,
    pub line_len: usize,
}

/// The kind of an I/O outcome other than a received byte.
#[derive(Debug, Copy, Clone, PartialEq, Eq, Structural)]
pub enum Outcome {
    Done,
    WouldBlock,
    Failed,
}

/// A step with the collaborator's error erased.
pub enum ControlStep {
    Perform(IoRequest),
    Finished(Result<(usize, usize), Sdi12Error<()>>),
}

pub open spec fn erase_err<E>(e: Sdi12Error<E>) -> Sdi12Error<()> {
    match e {
        Sdi12Error::Io(_) => Sdi12Error::Io(()),
        Sdi12Error::Timeout => Sdi12Error::Timeout,
        Sdi12Error::InvalidCharacter(c) => Sdi12Error::InvalidCharacter(c),
        Sdi12Error::InvalidAddress(c) => Sdi12Error::InvalidAddress(c),
        Sdi12Error::InvalidFormat => Sdi12Error::InvalidFormat,
        Sdi12Error::BufferOverflow { needed, got } => Sdi12Error::BufferOverflow { needed, got },
        Sdi12Error::Framing => Sdi12Error::Framing,
        Sdi12Error::Parity => Sdi12Error::Parity,
        Sdi12Error::CrcMismatch { expected, calculated } => Sdi12Error::CrcMismatch {
            expected,
            calculated,
        },
        Sdi12Error::UnexpectedResponse => Sdi12Error::UnexpectedResponse,
        Sdi12Error::BusContention => Sdi12Error::BusContention,
        Sdi12Error::InvalidCommandIndex(i) => Sdi12Error::InvalidCommandIndex(i),
        Sdi12Error::CommandFormatFailed(f) => Sdi12Error::CommandFormatFailed(f),
        Sdi12Error::SensorSpecific(s) => Sdi12Error::SensorSpecific(s),
    }
}

pub open spec fn erase<E>(r: Step<E>) -> ControlStep {
    match r {
        Step::Perform(q) => ControlStep::Perform(q),
        Step::Finished(Ok(b)) => ControlStep::Finished(Ok(b)),
        Step::Finished(Err(e)) => ControlStep::Finished(Err(erase_err(e))),
    }
}

pub open spec fn outcome_of<E>(ev: IoEvent<E>) -> Outcome {
    match ev {
        IoEvent::Failed(_) => Outcome::Failed,
        IoEvent::WouldBlock => Outcome::WouldBlock,
        _ => Outcome::Done,
    }
}

/// The request that polls `op` for `cmd`.
pub open spec fn request_for(cmd: Command, op: PollOp) -> IoRequest {
    match op {
        PollOp::Break => IoRequest::SendBreak,
        PollOp::Write(i) => IoRequest::WriteByte(cmd.wire()[i as int]),
        PollOp::Flush => IoRequest::Flush,
        PollOp::Read => IoRequest::ReadByte,
    }
}

/// Deadline for writing one byte of `cmd`.
pub open spec fn write_deadline(cmd: Command, now: u64) -> u64 {
    deadline_after(now, (BYTE_DURATION_US * cmd.wire().len() + 20_000) as nat)
}

/// Framing for a command that could be encoded, else the encoding error.
pub open spec fn configure_spec(c: Control, cmd: Command) -> (Control, ControlStep) {
    if cmd.wire().len() <= COMMAND_CAPACITY {
        (
            Control { phase: Phase::Configure, ..c },
            ControlStep::Perform(IoRequest::SetFraming(FrameFormat::Sdi12_7e1)),
        )
    } else {
        (
            Control { phase: Phase::Done, ..c },
            ControlStep::Finished(Err(Sdi12Error::CommandFormatFailed(format_error_of(cmd)))),
        )
    }
}

/// The start of an attempt: a break when the bus has been quiet too long.
pub open spec fn begin_spec(c: Control, cmd: Command, now: u64) -> (Control, ControlStep) {
    if break_needed_spec(now, c.last_activity) {
        (
            Control {
                phase: Phase::Polling {
                    op: PollOp::Break,
                    deadline: deadline_after(now, BREAK_TIMEOUT_US as nat),
                    delaying: false,
                },
                ..c
            },
            ControlStep::Perform(IoRequest::SendBreak),
        )
    } else {
        configure_spec(c, cmd)
    }
}

/// The deadline of `op` ran out.
pub open spec fn timed_out_spec(c: Control, op: PollOp) -> (Control, ControlStep) {
    if op == PollOp::Read {
        let f = if c.line_len > 0 {
            RetryableFailure::IncompleteLine
        } else {
            RetryableFailure::Timeout
        };
        match retry_decision_spec(c.attempt, f) {
            RetryDecision::Wait { us } => (
                Control { phase: Phase::RetryWait, ..c },
                ControlStep::Perform(IoRequest::Delay { us }),
            ),
            RetryDecision::GiveUp(g) => (
                Control { phase: Phase::Done, ..c },
                ControlStep::Finished(Err(failure_error(g))),
            ),
        }
    } else {
        (Control { phase: Phase::Done, ..c }, ControlStep::Finished(Err(Sdi12Error::Timeout)))
    }
}

/// `op` (other than a read) completed at `now`.
pub open spec fn completed_spec(c: Control, cmd: Command, cap: usize, op: PollOp, now: u64) -> (
    Control,
    ControlStep,
) {
    match op {
        PollOp::Break => (
            Control { phase: Phase::PostBreak, ..c },
            ControlStep::Perform(IoRequest::Delay { us: POST_BREAK_MARKING_MIN_US as u32 }),
        ),
        PollOp::Write(i) => if i + 1 < cmd.wire().len() {
            (
                Control {
                    phase: Phase::Polling {
                        op: PollOp::Write((i + 1) as usize),
                        deadline: write_deadline(cmd, now),
                        delaying: false,
                    },
                    ..c
                },
                ControlStep::Perform(IoRequest::WriteByte(cmd.wire()[i + 1])),
            )
        } else {
            (
                Control {
                    phase: Phase::Polling {
                        op: PollOp::Flush,
                        deadline: deadline_after(now, FLUSH_TIMEOUT_US as nat),
                        delaying: false,
                    },
                    ..c
                },
                ControlStep::Perform(IoRequest::Flush),
            )
        },
        _ => if cap > 0 {
            (
                Control {
                    phase: Phase::Polling {
                        op: PollOp::Read,
                        deadline: deadline_after(now, READ_TIMEOUT_US as nat),
                        delaying: false,
                    },
                    line_len: 0,
                    ..c
                },
                ControlStep::Perform(IoRequest::ReadByte),
            )
        } else {
            (
                Control { phase: Phase::Done, line_len: 0, ..c },
                ControlStep::Finished(Err(Sdi12Error::BufferOverflow { needed: 1, got: 0 })),
            )
        },
    }
}

/// One step of the transaction, for any outcome but a received byte.
pub open spec fn control_step(c: Control, cmd: Command, cap: usize, now: u64, ev: Outcome) -> (
    Control,
    ControlStep,
) {
    match c.phase {
        Phase::Start => begin_spec(c, cmd, now),
        Phase::RetryWait => begin_spec(Control { attempt: (c.attempt + 1) as u8, ..c }, cmd, now),
        Phase::PostBreak => configure_spec(Control { last_activity: Some(now), ..c }, cmd),
        Phase::Configure => match ev {
            Outcome::Failed => (
                Control { phase: Phase::Done, ..c },
                ControlStep::Finished(Err(Sdi12Error::Io(()))),
            ),
            Outcome::WouldBlock => (
                c,
                ControlStep::Perform(IoRequest::SetFraming(FrameFormat::Sdi12_7e1)),
            ),
            Outcome::Done => (
                Control {
                    phase: Phase::Polling {
                        op: PollOp::Write(0),
                        deadline: write_deadline(cmd, now),
                        delaying: false,
                    },
                    ..c
                },
                ControlStep::Perform(IoRequest::WriteByte(cmd.wire()[0])),
            ),
        },
        Phase::Polling { op, deadline, delaying } => if delaying {
            (
                Control { phase: Phase::Polling { op, deadline, delaying: false }, ..c },
                ControlStep::Perform(request_for(cmd, op)),
            )
        } else {
            match ev {
                Outcome::Failed => (
                    Control { phase: Phase::Done, ..c },
                    ControlStep::Finished(Err(Sdi12Error::Io(()))),
                ),
                Outcome::WouldBlock => if now >= deadline {
                    timed_out_spec(c, op)
                } else {
                    (
                        Control { phase: Phase::Polling { op, deadline, delaying: true }, ..c },
                        ControlStep::Perform(IoRequest::Delay { us: POLL_DELAY_US }),
                    )
                },
                Outcome::Done => if op == PollOp::Read {
                    (
                        Control { phase: Phase::Polling { op, deadline, delaying: false }, ..c },
                        ControlStep::Perform(IoRequest::ReadByte),
                    )
                } else {
                    completed_spec(c, cmd, cap, op, now)
                },
            }
        },
        Phase::Done => (c, ControlStep::Finished(Err(Sdi12Error::InvalidFormat))),
    }
}

/// The outcome a sensor that never answers gives to the request that
/// control state `c` has pending: every read would block, everything else
/// completes.
pub open spec fn silent_outcome(c: Control) -> Outcome {
    if c.phase matches Phase::Polling { op: PollOp::Read, delaying: false, .. } {
        Outcome::WouldBlock
    } else {
        Outcome::Done
    }
}

/// Write requests issued so far against a silent sensor, where every write
/// completes at once: `len` per finished attempt plus those of the current one.
pub open spec fn silent_writes(c: Control, len: int) -> int {
    c.attempt * len + match c.phase {
        Phase::Polling { op: PollOp::Write(i), .. } => i + 1,
        Phase::Polling { op: PollOp::Flush, .. } => len,
        Phase::Polling { op: PollOp::Read, .. } => len,
        Phase::RetryWait => len,
        _ => 0,
    }
}

/// Read requests issued so far are at least one per attempt that reached
/// its read.
pub open spec fn silent_reads_min(c: Control) -> int {
    c.attempt + match c.phase {
        Phase::Polling { op: PollOp::Read, .. } => 1int,
        Phase::RetryWait => 1,
        _ => 0,
    }
}

/// What holds in every state of a transaction against a silent sensor:
/// `waited` is the retry waits, `writes` and `reads` the write and read
/// requests asked for so far.
pub open spec fn silent_inv(c: Control, cmd: Command, cap: usize, waited: int, writes: int, reads: int) -> bool {
    &&& c.attempt < MAX_ATTEMPTS
    &&& c.line_len == 0
    &&& !(c.phase is Done)
    &&& (c.phase is RetryWait ==> c.attempt + 1 < MAX_ATTEMPTS)
    &&& waited == RETRY_DELAY_US * c.attempt + (if c.phase is RetryWait {
        RETRY_DELAY_US as int
    } else {
        0
    })
    &&& 1 <= cmd.wire().len() <= COMMAND_CAPACITY
    &&& cap > 0
    &&& (c.phase matches Phase::Polling { op: PollOp::Write(i), .. } ==> i < cmd.wire().len())
    &&& (c.phase matches Phase::Polling { op, delaying: true, .. } ==> op == PollOp::Read)
    &&& writes == silent_writes(c, cmd.wire().len() as int)
    &&& reads >= silent_reads_min(c)
}

/// Against a sensor that never answers, a transaction for an encodable
/// command only ever finishes with a timeout, on its third attempt: the
/// whole command has then been written exactly three times, at least three
/// reads were tried, and two retry waits of 20 ms (at least 16.67 ms each)
/// came between the attempts. Every step keeps the invariant; a finishing
/// step reports `Timeout` with those counts.
pub proof fn lemma_silent_sensor(
    c: Control,
    cmd: Command,
    cap: usize,
    now: u64,
    waited: int,
    writes: int,
    reads: int,
)
    requires
        silent_inv(c, cmd, cap, waited, writes, reads),
    ensures
        ({
            let (c2, r) = control_step(c, cmd, cap, now, silent_outcome(c));
            match r {
                ControlStep::Perform(req) => silent_inv(
                    c2,
                    cmd,
                    cap,
                    waited + (if c2.phase is RetryWait && !(c.phase is RetryWait) {
                        RETRY_DELAY_US as int
                    } else {
                        0
                    }),
                    writes + (if req is WriteByte {
                        1int
                    } else {
                        0
                    }),
                    reads + (if req is ReadByte {
                        1int
                    } else {
                        0
                    }),
                ),
                ControlStep::Finished(res) => res == Err::<(usize, usize), Sdi12Error<()>>(
                    Sdi12Error::Timeout,
                ) && c.attempt + 1 == MAX_ATTEMPTS && waited == 2 * (RETRY_DELAY_US as int)
                    && waited >= 2 * crate::timing::RETRY_WAIT_MIN_US && writes == 3
                    * cmd.wire().len() && reads >= 3,
            }
        }),
{
    let len = cmd.wire().len() as int;
    let a = c.attempt as int;
    assert((a + 1) * len == a * len + len) by (nonlinear_arith);
    assert(2 * len + len == 3 * len);
    if a == 2 {
        assert(a * len == 2 * len) by (nonlinear_arith)
            requires
                a == 2,
        ;
    }
}

/// A transaction starts in the silent-sensor invariant with nothing waited,
/// written or read.
pub proof fn lemma_silent_sensor_start(cmd: Command, cap: usize, last_activity: Option<u64>)
    requires
        1 <= cmd.wire().len() <= COMMAND_CAPACITY,
        cap > 0,
    ensures
        silent_inv(
            Control { phase: Phase::Start, attempt: 0, last_activity, line_len: 0 },
            cmd,
            cap,
            0,
            0,
            0,
        ),
{
}

/// One command/response exchange. The only state that outlives it is the
/// time of last bus activity, which the caller passes in and reads back.
pub struct Transaction {
    command: Command,
    encoded: Result<Vec<u8>, CommandFormatError>,
    line: Vec<u8>,
    capacity: usize,
    attempt: u8,
    last_activity: Option<u64>,
    phase: Phase,
}

impl Transaction {
    #[verifier::type_invariant]
    spec fn inv(self) -> bool {
        &&& self.attempt < MAX_ATTEMPTS
        &&& self.line@.len() <= self.capacity
        &&& (self.encoded matches Ok(w) ==> w@ == self.command.wire() && w@.len() >= 1 && w@.len()
            <= 10)
        &&& (self.phase matches Phase::Polling { op: PollOp::Write(i), .. } ==> self.encoded matches Ok(
            w,
        ) && i < w@.len())
        &&& (self.phase matches Phase::Polling { op: PollOp::Read, .. } ==> self.line@.len()
            < self.capacity)
        &&& (self.phase is RetryWait ==> self.attempt + 1 < MAX_ATTEMPTS)
        &&& (self.phase is Configure ==> self.encoded is Ok)
        &&& (self.encoded is Ok <==> self.command.wire().len() <= COMMAND_CAPACITY)
        &&& (self.encoded matches Err(e) ==> e == format_error_of(self.command))
    }

    /// The request that polls `op`.
    pub open spec fn request_of(self, op: PollOp) -> IoRequest {
        match op {
            PollOp::Break => IoRequest::SendBreak,
            PollOp::Write(i) => IoRequest::WriteByte(self.spec_command().wire()[i as int]),
            PollOp::Flush => IoRequest::Flush,
            PollOp::Read => IoRequest::ReadByte,
        }
    }

    /// The step after the break decision: framing for a command that could
    /// be encoded, else the encoding error.
    pub open spec fn configure_step<E>(self) -> Step<E> {
        if self.spec_command().wire().len() <= COMMAND_CAPACITY {
            Step::Perform(IoRequest::SetFraming(FrameFormat::Sdi12_7e1))
        } else {
            Step::Finished(Err(Sdi12Error::CommandFormatFailed(format_error_of(self.spec_command()))))
        }
    }

    pub closed spec fn spec_command(self) -> Command {
        self.command
    }

    pub closed spec fn spec_line(self) -> Seq<u8> {
        self.line@
    }

    pub closed spec fn spec_capacity(self) -> usize {
        self.capacity
    }

    pub closed spec fn spec_attempt(self) -> u8 {
        self.attempt
    }

    pub closed spec fn spec_last_activity(self) -> Option<u64> {
        self.last_activity
    }

    pub closed spec fn spec_phase(self) -> Phase {
        self.phase
    }

    /// The control state: phase, attempt, last activity and line length.
    pub closed spec fn control(self) -> Control {
        Control {
            phase: self.phase,
            attempt: self.attempt,
            last_activity: self.last_activity,
            line_len: self.line@.len() as usize,
        }
    }

    /// A transaction for `command`, reading into a line of at most
    /// `capacity` bytes, on a bus last active at `last_activity`.
    pub fn new(command: Command, last_activity: Option<u64>, capacity: usize) -> (r: Self)
        ensures
            r.spec_command() == command,
            r.spec_capacity() == capacity,
            r.spec_last_activity() == last_activity,
            r.spec_attempt() == 0,
            r.spec_phase() == Phase::Start,
            r.spec_line().len() == 0,
    {
        let encoded = match command.format_into() {
            Ok(buf) => {
                proof {
                    assert(command.wire().len() >= 2);
                }
                Ok(slice_to_vec(command_buffer_as_bytes(&buf)))
            },
            Err(e) => Err(e),
        };
        Transaction {
            command,
            encoded,
            line: Vec::new(),
            capacity,
            attempt: 0,
            last_activity,
            phase: Phase::Start,
        }
    }

    pub fn phase(&self) -> (r: Phase)
        ensures
            r == self.spec_phase(),
    {
        self.phase
    }

    pub fn attempt(&self) -> (r: u8)
        ensures
            r == self.spec_attempt(),
            r < MAX_ATTEMPTS,
    {
        proof {
            use_type_invariant(self);
        }
        self.attempt
    }

    /// The time of the last successful bus activity.
    pub fn last_activity(&self) -> (r: Option<u64>)
        ensures
            r == self.spec_last_activity(),
    {
        self.last_activity
    }

    /// The response line read so far.
    pub fn line(&self) -> (r: &[u8])
        ensures
            r@ == self.spec_line(),
    {
        self.line.as_slice()
    }

    /// The command of this transaction.
    pub fn command(&self) -> (r: &Command)
        ensures
            *r == self.spec_command(),
    {
        &self.command
    }

    /// Starts an attempt: a break first when the bus has been quiet too long.
    fn begin_attempt<E>(&mut self, now: u64) -> (r: Step<E>)
        requires
            old(self).phase is Start || old(self).phase is RetryWait || old(self).phase is Configure,
        ensures
            (final(self).control(), erase(r)) == begin_spec(old(self).control(), old(self).command, now),
            final(self).capacity == old(self).capacity,
            final(self).attempt == old(self).attempt,
            final(self).command == old(self).command,
            final(self).last_activity == old(self).last_activity,
            r == Step::<E>::Perform(IoRequest::SendBreak) <==> break_needed_spec(
                now,
                old(self).last_activity,
            ),
            r is Finished ==> final(self).phase is Done && old(self).encoded is Err,
            !(r matches Step::Finished(Ok(_))),
            !break_needed_spec(now, old(self).last_activity) ==> r == old(self).configure_step::<E>(),
    {
        proof {
            use_type_invariant(&*self);
        }
        if break_needed(now, self.last_activity) {
            self.phase = Phase::Polling {
                op: PollOp::Break,
                deadline: deadline(now, BREAK_TIMEOUT_US),
                delaying: false,
            };
            Step::Perform(IoRequest::SendBreak)
        } else {
            self.configure()
        }
    }

    /// After any break: fails for a command that could not be encoded, else
    /// asks for the standard framing.
    fn configure<E>(&mut self) -> (r: Step<E>)
        ensures
            (final(self).control(), erase(r)) == configure_spec(old(self).control(), old(self).command),
            final(self).capacity == old(self).capacity,
            final(self).attempt == old(self).attempt,
            final(self).command == old(self).command,
            final(self).last_activity == old(self).last_activity,
            final(self).line == old(self).line,
            r != Step::<E>::Perform(IoRequest::SendBreak),
            r is Finished ==> final(self).phase is Done && old(self).encoded is Err,
            !(r matches Step::Finished(Ok(_))),
            r == old(self).configure_step::<E>(),
    {
        proof {
            use_type_invariant(&*self);
        }
        match &self.encoded {
            Err(e) => {
                let e = *e;
                self.phase = Phase::Done;
                Step::Finished(Err(Sdi12Error::CommandFormatFailed(e)))
            },
            Ok(_) => {
                self.phase = Phase::Configure;
                Step::Perform(IoRequest::SetFraming(FrameFormat::Sdi12_7e1))
            },
        }
    }

    /// Issues the request of `op` again.
    fn poll<E>(&mut self, op: PollOp, deadline: u64) -> (r: Step<E>)
        requires
            op matches PollOp::Write(i) ==> old(self).encoded matches Ok(w) && i < w@.len(),
            op == PollOp::Read ==> old(self).line@.len() < old(self).capacity,
        ensures
            (final(self).control(), erase(r)) == (Control { phase: Phase::Polling { op, deadline, delaying: false }, ..old(self).control() }, ControlStep::Perform(request_for(old(self).command, op))),
            final(self).capacity == old(self).capacity,
            final(self).attempt == old(self).attempt,
            final(self).command == old(self).command,
            final(self).last_activity == old(self).last_activity,
            final(self).line == old(self).line,
            final(self).phase == (Phase::Polling { op, deadline, delaying: false }),
            r == Step::<E>::Perform(old(self).request_of(op)),
    {
        proof {
            use_type_invariant(&*self);
        }
        self.phase = Phase::Polling { op, deadline, delaying: false };
        let req = match op {
            PollOp::Break => IoRequest::SendBreak,
            PollOp::Write(i) => match &self.encoded {
                Ok(w) => IoRequest::WriteByte(w[i]),
                Err(_) => IoRequest::Flush,
            },
            PollOp::Flush => IoRequest::Flush,
            PollOp::Read => IoRequest::ReadByte,
        };
        Step::Perform(req)
    }

    /// The deadline of `op` ran out.
    fn timed_out<E>(&mut self, op: PollOp) -> (r: Step<E>)
        ensures
            (final(self).control(), erase(r)) == timed_out_spec(old(self).control(), op),
            final(self).capacity == old(self).capacity,
            final(self).attempt == old(self).attempt,
            final(self).command == old(self).command,
            final(self).last_activity == old(self).last_activity,
            op != PollOp::Read ==> r == Step::<E>::Finished(Err(Sdi12Error::Timeout))
                && final(self).phase is Done,
            op == PollOp::Read ==> ({
                let f = if old(self).line@.len() > 0 {
                    RetryableFailure::IncompleteLine
                } else {
                    RetryableFailure::Timeout
                };
                match retry_decision_spec(old(self).attempt, f) {
                    RetryDecision::Wait { us } => r == Step::<E>::Perform(IoRequest::Delay { us })
                        && final(self).phase is RetryWait,
                    RetryDecision::GiveUp(g) => r == Step::<E>::Finished(Err(failure_error(g)))
                        && final(self).phase is Done,
                }
            }),
    {
        proof {
            use_type_invariant(&*self);
        }
        match op {
            PollOp::Read => {
                let f = if self.line.len() > 0 {
                    RetryableFailure::IncompleteLine
                } else {
                    RetryableFailure::Timeout
                };
                match retry_decision(self.attempt, f) {
                    RetryDecision::Wait { us } => {
                        self.phase = Phase::RetryWait;
                        Step::Perform(IoRequest::Delay { us })
                    },
                    RetryDecision::GiveUp(g) => {
                        self.phase = Phase::Done;
                        match g {
                            RetryableFailure::Timeout => Step::Finished(Err(Sdi12Error::Timeout)),
                            RetryableFailure::IncompleteLine => Step::Finished(
                                Err(Sdi12Error::InvalidFormat),
                            ),
                        }
                    },
                }
            },
            _ => {
                self.phase = Phase::Done;
                Step::Finished(Err(Sdi12Error::Timeout))
            },
        }
    }

    /// A byte of the response arrived at `now`.
    fn byte_read<E>(&mut self, now: u64, b: u8) -> (r: Step<E>)
        requires
            old(self).line@.len() < old(self).capacity,
        ensures
            final(self).capacity == old(self).capacity,
            final(self).attempt == old(self).attempt,
            final(self).command == old(self).command,
            final(self).line@ == old(self).line@.push(b),
            r matches Step::Finished(Ok(bounds)) ==> Ok::<(usize, usize), Sdi12Error<E>>(bounds)
                == payload_bounds_spec::<E>(final(self).line@, final(self).command)
                && final(self).last_activity == Some(now),
            r is Finished ==> final(self).phase is Done,
            !(r matches Step::Finished(Ok(_))) ==> final(self).last_activity == old(
                self,
            ).last_activity,
            ({
                let l = final(self).line@;
                if ends_with_crlf(l) {
                    r == Step::<E>::Finished(payload_bounds_spec::<E>(l, old(self).command))
                } else if l.len() >= old(self).capacity {
                    r == Step::<E>::Finished(
                        Err(
                            Sdi12Error::BufferOverflow {
                                needed: overflow_needed(l.len()),
                                got: old(self).capacity,
                            },
                        ),
                    )
                } else {
                    r == Step::<E>::Perform(IoRequest::ReadByte)
                }
            }),
    {
        proof {
            use_type_invariant(&*self);
        }
        self.phase = Phase::Done;
        let mut line: Vec<u8> = Vec::new();
        core::mem::swap(&mut self.line, &mut line);
        line.push(b);
        core::mem::swap(&mut self.line, &mut line);
        let n = self.line.len();
        if n >= 2 && self.line[n - 2] == '\r' as u8 && self.line[n - 1] == '\n' as u8 {
            self.phase = Phase::Done;
            match process_response_payload::<E>(self.line.as_slice(), &self.command) {
                Ok(bounds) => {
                    self.last_activity = Some(now);
                    Step::Finished(Ok(bounds))
                },
                Err(e) => Step::Finished(Err(e)),
            }
        } else if n >= self.capacity {
            self.phase = Phase::Done;
            let needed = if n < usize::MAX {
                n + 1
            } else {
                n
            };
            Step::Finished(Err(Sdi12Error::BufferOverflow { needed, got: self.capacity }))
        } else {
            self.poll(PollOp::Read, deadline(now, INTER_BYTE_TIMEOUT_US))
        }
    }

    /// `op` completed at `now`.
    fn completed<E>(&mut self, op: PollOp, now: u64) -> (r: Step<E>)
        requires
            op != PollOp::Read,
            op matches PollOp::Write(i) ==> old(self).encoded matches Ok(w) && i < w@.len(),
        ensures
            (final(self).control(), erase(r)) == completed_spec(old(self).control(), old(self).command, old(self).capacity, op, now),
            final(self).capacity == old(self).capacity,
            final(self).attempt == old(self).attempt,
            final(self).command == old(self).command,
            final(self).last_activity == old(self).last_activity,
            op == PollOp::Break ==> r == Step::<E>::Perform(
                IoRequest::Delay { us: POST_BREAK_MARKING_MIN_US as u32 },
            ),
            r is Finished ==> final(self).phase is Done,
            !(r matches Step::Finished(Ok(_))),
            op matches PollOp::Write(i) ==> r == Step::<E>::Perform(
                if i + 1 < old(self).command.wire().len() {
                    IoRequest::WriteByte(old(self).command.wire()[i + 1])
                } else {
                    IoRequest::Flush
                },
            ),
            op == PollOp::Flush ==> final(self).line@.len() == 0 && r == if old(self).capacity > 0 {
                Step::<E>::Perform(IoRequest::ReadByte)
            } else {
                Step::<E>::Finished(Err(Sdi12Error::BufferOverflow { needed: 1, got: 0 }))
            },
    {
        proof {
            use_type_invariant(&*self);
        }
        match op {
            PollOp::Break => {
                self.phase = Phase::PostBreak;
                Step::Perform(IoRequest::Delay { us: POST_BREAK_MARKING_MIN_US as u32 })
            },
            PollOp::Write(i) => {
                let len = match &self.encoded {
                    Ok(w) => w.len(),
                    Err(_) => 0,
                };
                if i + 1 < len {
                    let d = BYTE_DURATION_US * (len as u64) + 20_000;
                    self.poll(PollOp::Write(i + 1), deadline(now, d))
                } else {
                    self.poll(PollOp::Flush, deadline(now, FLUSH_TIMEOUT_US))
                }
            },
            _ => {
                self.line = Vec::new();
                if self.capacity == 0 {
                    self.phase = Phase::Done;
                    Step::Finished(Err(Sdi12Error::BufferOverflow { needed: 1, got: 0 }))
                } else {
                    self.poll(PollOp::Read, deadline(now, READ_TIMEOUT_US))
                }
            },
        }
    }

    /// Advances the exchange: `event` is the outcome of the request the last
    /// step asked for (ignored by the first step), `now` the collaborator's
    /// clock in microseconds.
    pub fn step<E>(&mut self, now: u64, event: IoEvent<E>) -> (r: Step<E>)
        ensures
            !(r matches Step::Finished(Ok(_))) && !(old(self).spec_phase() is PostBreak)
                ==> final(self).spec_last_activity() == old(self).spec_last_activity(),
            !(event is Byte) ==> (final(self).control(), erase(r)) == control_step(old(self).control(), old(self).spec_command(), old(self).spec_capacity(), now, outcome_of(event)),
            final(self).spec_capacity() == old(self).spec_capacity(),
            final(self).spec_command() == old(self).spec_command(),
            final(self).spec_attempt() == old(self).spec_attempt() || (old(self).spec_phase() is RetryWait
                && final(self).spec_attempt() == old(self).spec_attempt() + 1),
            r is Finished ==> final(self).spec_phase() is Done,
            old(self).spec_phase() is Done ==> r == Step::<E>::Finished(Err(Sdi12Error::InvalidFormat)),
            r matches Step::Finished(Ok(bounds)) ==> Ok::<(usize, usize), Sdi12Error<E>>(bounds)
                == payload_bounds_spec::<E>(final(self).spec_line(), final(self).spec_command())
                && final(self).spec_last_activity() == Some(now),
            old(self).spec_phase() is Start ==> (r == Step::<E>::Perform(IoRequest::SendBreak)
                <==> break_needed_spec(now, old(self).spec_last_activity())),
            old(self).spec_phase() is RetryWait ==> (r == Step::<E>::Perform(IoRequest::SendBreak)
                <==> break_needed_spec(now, old(self).spec_last_activity())),
            old(self).spec_phase() matches Phase::Polling { delaying: false, .. } ==> (
            event matches IoEvent::Failed(e) ==> r == Step::<E>::Finished(Err(Sdi12Error::Io(e)))),
            old(self).spec_phase() matches Phase::Polling {
                op: PollOp::Read,
                deadline,
                delaying: false,
            } && event is WouldBlock && now >= deadline ==> ({
                let f = if old(self).spec_line().len() > 0 {
                    RetryableFailure::IncompleteLine
                } else {
                    RetryableFailure::Timeout
                };
                match retry_decision_spec(old(self).spec_attempt(), f) {
                    RetryDecision::Wait { us } => r == Step::<E>::Perform(IoRequest::Delay { us }),
                    RetryDecision::GiveUp(g) => r == Step::<E>::Finished(Err(failure_error(g))),
                }
            }),
            (old(self).spec_phase() is Start || old(self).spec_phase() is RetryWait) && !break_needed_spec(
                now,
                old(self).spec_last_activity(),
            ) ==> r == old(self).configure_step::<E>(),
            old(self).spec_phase() is PostBreak ==> r == old(self).configure_step::<E>()
                && final(self).spec_last_activity() == Some(now),
            old(self).spec_phase() matches Phase::Polling { op, deadline, delaying: true } ==> r
                == Step::<E>::Perform(old(self).request_of(op)) && final(self).spec_phase() == (
            Phase::Polling { op, deadline, delaying: false }),
            old(self).spec_phase() == (Phase::Configure) ==> (event matches IoEvent::Failed(e) ==> r
                == Step::<E>::Finished(Err(Sdi12Error::Io(e)))),
            old(self).spec_phase() == (Phase::Configure) && event is WouldBlock ==> r
                == Step::<E>::Perform(IoRequest::SetFraming(FrameFormat::Sdi12_7e1)),
            old(self).spec_phase() matches Phase::Polling { op: PollOp::Read, delaying: false, .. }
                && event is Done ==> r == Step::<E>::Perform(IoRequest::ReadByte),
            old(self).spec_phase() == (Phase::Configure) && (event is Done || event is Byte) ==> r
                == Step::<E>::Perform(IoRequest::WriteByte(old(self).spec_command().wire()[0])),
            old(self).spec_phase() matches Phase::Polling { op: PollOp::Break, delaying: false, .. }
                && (event is Done || event is Byte) ==> r == Step::<E>::Perform(
                IoRequest::Delay { us: POST_BREAK_MARKING_MIN_US as u32 },
            ),
            old(self).spec_phase() matches Phase::Polling { op, delaying: false, .. } ==> ((
            event is Done || event is Byte) ==> (op matches PollOp::Write(i) ==> r
                == Step::<E>::Perform(
                if i + 1 < old(self).spec_command().wire().len() {
                    IoRequest::WriteByte(old(self).spec_command().wire()[i + 1])
                } else {
                    IoRequest::Flush
                },
            ))),
            old(self).spec_phase() matches Phase::Polling { op: PollOp::Flush, delaying: false, .. }
                && (event is Done || event is Byte) ==> final(self).spec_line().len() == 0 && r
                == if old(self).spec_capacity() > 0 {
                Step::<E>::Perform(IoRequest::ReadByte)
            } else {
                Step::<E>::Finished(Err(Sdi12Error::BufferOverflow { needed: 1, got: 0 }))
            },
            old(self).spec_phase() matches Phase::Polling { op: PollOp::Read, delaying: false, .. }
                ==> (event matches IoEvent::Byte(b) ==> final(self).spec_line() == old(
                self,
            ).spec_line().push(b) && ({
                let l = final(self).spec_line();
                if ends_with_crlf(l) {
                    r == Step::<E>::Finished(payload_bounds_spec::<E>(l, old(self).spec_command()))
                } else if l.len() >= old(self).spec_capacity() {
                    r == Step::<E>::Finished(
                        Err(
                            Sdi12Error::BufferOverflow {
                                needed: overflow_needed(l.len()),
                                got: old(self).spec_capacity(),
                            },
                        ),
                    )
                } else {
                    r == Step::<E>::Perform(IoRequest::ReadByte)
                }
            })),
            old(self).spec_phase() matches Phase::Polling { op, deadline, delaying: false } ==> (op
                != PollOp::Read && event is WouldBlock && now >= deadline ==> r == Step::<
                E,
            >::Finished(Err(Sdi12Error::Timeout))),
            old(self).spec_phase() matches Phase::Polling {
                deadline,
                delaying: false,
                ..
            } && event is WouldBlock && now < deadline ==> r == Step::<E>::Perform(IoRequest::Delay { us: POLL_DELAY_US }),
    {
        proof {
            use_type_invariant(&*self);
        }
        match self.phase {
            Phase::Start => self.begin_attempt(now),
            Phase::RetryWait => {
                self.phase = Phase::Start;
                self.attempt = self.attempt + 1;
                self.begin_attempt(now)
            },
            Phase::PostBreak => {
                self.last_activity = Some(now);
                self.configure()
            },
            Phase::Configure => match event {
                IoEvent::Failed(e) => {
                    self.phase = Phase::Done;
                    Step::Finished(Err(Sdi12Error::Io(e)))
                },
                IoEvent::WouldBlock => Step::Perform(IoRequest::SetFraming(FrameFormat::Sdi12_7e1)),
                _ => {
                    let len = match &self.encoded {
                        Ok(w) => w.len(),
                        Err(_) => 0,
                    };
                    if len == 0 {
                        self.phase = Phase::Done;
                        Step::Finished(Err(Sdi12Error::InvalidFormat))
                    } else {
                        let d = BYTE_DURATION_US * (len as u64) + 20_000;
                        self.poll(PollOp::Write(0), deadline(now, d))
                    }
                },
            },
            Phase::Polling { op, deadline, delaying } => {
                if delaying {
                    self.poll(op, deadline)
                } else {
                    match event {
                        IoEvent::Failed(e) => {
                            self.phase = Phase::Done;
                            Step::Finished(Err(Sdi12Error::Io(e)))
                        },
                        IoEvent::WouldBlock => {
                            if now >= deadline {
                                self.timed_out(op)
                            } else {
                                self.phase = Phase::Polling { op, deadline, delaying: true };
                                Step::Perform(IoRequest::Delay { us: POLL_DELAY_US })
                            }
                        },
                        IoEvent::Byte(b) => {
                            if op == PollOp::Read {
                                self.byte_read(now, b)
                            } else {
                                self.completed(op, now)
                            }
                        },
                        IoEvent::Done => {
                            if op == PollOp::Read {
                                self.poll(op, deadline)
                            } else {
                                self.completed(op, now)
                            }
                        },
                    }
                }
            },
            Phase::Done => Step::Finished(Err(Sdi12Error::InvalidFormat)),
        }
    }
}

} // verus!
