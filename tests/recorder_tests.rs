use sdi12::recorder::{
    break_needed, process_response_payload, retry_decision, Phase, RetryDecision, RetryableFailure,
    MAX_ATTEMPTS, RETRY_DELAY_US,
};
use sdi12::timing::{POST_BREAK_MARKING_MIN_US, RETRY_WAIT_MIN_US};
use sdi12::{
    Command, DataIndex, FrameFormat, IoEvent, IoRequest, MeasurementIndex, Sdi12Addr, Sdi12Error,
    Step, Transaction,
};

#[derive(Debug, Copy, Clone, PartialEq, Eq)]
struct MockCommError;

/// A simulated sensor bus: time moves only through delays and breaks.
struct MockBus {
    now: u64,
    staged: Vec<u8>,
    read_pos: usize,
    replay_each_attempt: bool,
    break_sent: bool,
    breaks: u32,
    config: Option<FrameFormat>,
    write_log: Vec<u8>,
    flushes: u32,
    reads: u32,
    retry_waits: Vec<u32>,
}

impl MockBus {
    fn new() -> Self {
        MockBus {
            now: 0,
            staged: Vec::new(),
            read_pos: 0,
            replay_each_attempt: false,
            break_sent: false,
            breaks: 0,
            config: None,
            write_log: Vec::new(),
            flushes: 0,
            reads: 0,
            retry_waits: Vec::new(),
        }
    }

    fn perform(&mut self, req: IoRequest) -> IoEvent<MockCommError> {
        match req {
            IoRequest::SendBreak => {
                self.break_sent = true;
                self.breaks += 1;
                self.now += 12_000;
                IoEvent::Done
            },
            IoRequest::Delay { us } => {
                if us == RETRY_DELAY_US {
                    self.retry_waits.push(us);
                }
                self.now += us as u64;
                IoEvent::Done
            },
            IoRequest::SetFraming(f) => {
                self.config = Some(f);
                if self.replay_each_attempt {
                    self.read_pos = 0;
                }
                IoEvent::Done
            },
            IoRequest::WriteByte(b) => {
                self.write_log.push(b);
                IoEvent::Done
            },
            IoRequest::Flush => {
                self.flushes += 1;
                IoEvent::Done
            },
            IoRequest::ReadByte => {
                self.reads += 1;
                if self.read_pos < self.staged.len() {
                    self.read_pos += 1;
                    IoEvent::Byte(self.staged[self.read_pos - 1])
                } else {
                    IoEvent::WouldBlock
                }
            },
        }
    }
}

fn addr(c: char) -> Sdi12Addr {
    Sdi12Addr::new::<()>(c).unwrap()
}

fn run(tx: &mut Transaction, bus: &mut MockBus) -> Result<(usize, usize), Sdi12Error<MockCommError>> {
    let mut event = IoEvent::Done;
    loop {
        match tx.step(bus.now, event) {
            Step::Finished(r) => return r,
            Step::Perform(req) => event = bus.perform(req),
        }
    }
}

/// Runs until the transaction first asks for a byte of the response.
fn run_until_read(tx: &mut Transaction, bus: &mut MockBus) {
    let mut event = IoEvent::Done;
    loop {
        match tx.step(bus.now, event) {
            Step::Finished(r) => panic!("finished early: {:?}", r),
            Step::Perform(IoRequest::ReadByte) => return,
            Step::Perform(req) => event = bus.perform(req),
        }
    }
}

fn payload(line: &[u8], cmd: &Command) -> Result<Vec<u8>, Sdi12Error<()>> {
    process_response_payload::<()>(line, cmd).map(|(s, e)| line[s..e].to_vec())
}

// ---- Reading a response line ----

fn read_line_success() {
    let mut bus = MockBus::new();
    let data_to_read = b"1+12.3\r\n";
    bus.staged = data_to_read.to_vec();
    let mut tx = Transaction::new(Command::AcknowledgeActive { address: addr('1') }, None, 32);
    let result = run(&mut tx, &mut bus);
    assert!(result.is_ok());
    assert_eq!(tx.line(), data_to_read);
    assert_eq!(tx.line().len(), data_to_read.len());
    assert_eq!(result.unwrap(), (1, 6));
}

fn read_line_timeout_no_data() {
    let mut bus = MockBus::new();
    let mut tx = Transaction::new(Command::AcknowledgeActive { address: addr('1') }, None, 32);
    let result = run(&mut tx, &mut bus);
    assert!(matches!(result, Err(Sdi12Error::Timeout)));
}

fn read_line_timeout_partial_data() {
    let mut bus = MockBus::new();
    bus.staged = b"1+12.3".to_vec();
    bus.replay_each_attempt = true;
    let mut tx = Transaction::new(Command::AcknowledgeActive { address: addr('1') }, None, 32);
    let result = run(&mut tx, &mut bus);
    assert!(matches!(result, Err(Sdi12Error::InvalidFormat)));
}

fn read_line_buffer_overflow() {
    let mut bus = MockBus::new();
    bus.staged = b"1+12.345\r\n".to_vec();
    let mut tx = Transaction::new(Command::AcknowledgeActive { address: addr('1') }, None, 8);
    let result = run(&mut tx, &mut bus);
    assert!(matches!(result, Err(Sdi12Error::BufferOverflow { needed: 9, got: 8 })));
}

fn send_command_bytes_success() {
    let mut bus = MockBus::new();
    let cmd = Command::StartMeasurement { address: addr('1'), index: MeasurementIndex::Base };
    let mut tx = Transaction::new(cmd, None, 32);
    run_until_read(&mut tx, &mut bus);
    assert_eq!(bus.write_log[0], b'1');
    assert_eq!(bus.write_log[1], b'M');
    assert_eq!(bus.write_log[2], b'!');
    assert_eq!(bus.write_log.len(), 3);
    assert_eq!(bus.config, Some(FrameFormat::Sdi12_7e1));
    assert_eq!(bus.flushes, 1);
}

fn check_and_send_break_needed() {
    let mut bus = MockBus::new();
    bus.now = 200_000;
    let mut tx = Transaction::new(Command::AcknowledgeActive { address: addr('0') }, Some(10_000), 32);
    let first = tx.step(bus.now, IoEvent::<MockCommError>::Done);
    assert_eq!(first, Step::Perform(IoRequest::SendBreak));
    let outcome = bus.perform(IoRequest::SendBreak);
    assert_eq!(outcome, IoEvent::Done);
    run_until_read(&mut tx, &mut bus);
    assert!(bus.break_sent);
    assert!(bus.now > 200_000 + POST_BREAK_MARKING_MIN_US);
    assert!(tx.last_activity().is_some());
}

fn check_and_send_break_not_needed() {
    let mut bus = MockBus::new();
    bus.now = 50_000;
    let mut tx = Transaction::new(Command::AcknowledgeActive { address: addr('0') }, Some(10_000), 32);
    let first = tx.step(bus.now, IoEvent::<MockCommError>::Done);
    assert_eq!(first, Step::Perform(IoRequest::SetFraming(FrameFormat::Sdi12_7e1)));
    assert!(!bus.break_sent);
    assert_eq!(bus.now, 50_000);
    assert_eq!(tx.last_activity(), Some(10_000));
}

#[test]
fn mod_test_read_response_line_success() {
    read_line_success();
}

#[test]
fn io_helpers_test_read_response_line_success() {
    read_line_success();
}

#[test]
fn mod_test_read_response_line_timeout_no_data() {
    read_line_timeout_no_data();
}

#[test]
fn io_helpers_test_read_response_line_timeout_no_data() {
    read_line_timeout_no_data();
}

#[test]
fn mod_test_read_response_line_timeout_partial_data() {
    read_line_timeout_partial_data();
}

#[test]
fn io_helpers_test_read_response_line_timeout_partial_data() {
    read_line_timeout_partial_data();
}

#[test]
fn mod_test_read_response_line_buffer_overflow() {
    read_line_buffer_overflow();
}

#[test]
fn io_helpers_test_read_response_line_buffer_overflow() {
    read_line_buffer_overflow();
}

#[test]
fn mod_test_send_command_bytes_success() {
    send_command_bytes_success();
}

#[test]
fn io_helpers_test_send_command_bytes_success() {
    send_command_bytes_success();
}

#[test]
fn mod_test_check_and_send_break_needed() {
    check_and_send_break_needed();
}

#[test]
fn io_helpers_test_check_and_send_break_needed() {
    check_and_send_break_needed();
}

#[test]
fn mod_test_check_and_send_break_not_needed() {
    check_and_send_break_not_needed();
}

#[test]
fn io_helpers_test_check_and_send_break_not_needed() {
    check_and_send_break_not_needed();
}

// ---- Validating a response line ----

fn payload_simple_ack() {
    let cmd = Command::AcknowledgeActive { address: addr('0') };
    let result = payload(b"0\r\n", &cmd);
    assert!(result.is_ok());
    assert_eq!(result.unwrap(), b"");
}

fn payload_data_no_crc() {
    let cmd = Command::SendData { address: addr('1'), index: DataIndex::new(0).unwrap() };
    let result = payload(b"1+12.3-45\r\n", &cmd);
    assert!(result.is_ok());
    assert_eq!(result.unwrap(), b"+12.3-45");
}

fn payload_data_with_crc_ok() {
    let cmd = Command::StartMeasurementCRC { address: addr('0'), index: MeasurementIndex::Base };
    let result = payload(b"0+3.14OqZ\r\n", &cmd);
    assert!(result.is_ok());
    assert_eq!(result.unwrap(), b"+3.14");
}

fn payload_data_with_crc_bad() {
    let cmd = Command::StartMeasurementCRC { address: addr('0'), index: MeasurementIndex::Base };
    let result = payload(b"0+3.14OqX\r\n", &cmd);
    assert!(matches!(result, Err(Sdi12Error::CrcMismatch { .. })));
}

fn payload_wrong_address() {
    let cmd = Command::SendData { address: addr('0'), index: DataIndex::new(0).unwrap() };
    let result = payload(b"1+12.3\r\n", &cmd);
    assert!(matches!(result, Err(Sdi12Error::UnexpectedResponse)));
}

fn payload_address_query() {
    let result = payload(b"5\r\n", &Command::AddressQuery);
    assert!(result.is_ok());
    assert_eq!(result.unwrap(), b"");
}

fn payload_invalid_format() {
    let cmd = Command::AcknowledgeActive { address: addr('0') };
    assert!(matches!(payload(b"0", &cmd), Err(Sdi12Error::InvalidFormat)));
    assert!(matches!(payload(b"0\r", &cmd), Err(Sdi12Error::InvalidFormat)));
    assert!(matches!(payload(b"\r\n", &cmd), Err(Sdi12Error::InvalidFormat)));
    assert_eq!(payload(b"0\r\n", &cmd).unwrap(), b"");
}

#[test]
fn mod_test_process_response_payload_simple_ack() {
    payload_simple_ack();
}

#[test]
fn protocol_helpers_test_process_response_payload_simple_ack() {
    payload_simple_ack();
}

#[test]
fn mod_test_process_response_payload_data_no_crc() {
    payload_data_no_crc();
}

#[test]
fn protocol_helpers_test_process_response_payload_data_no_crc() {
    payload_data_no_crc();
}

#[test]
fn mod_test_process_response_payload_data_with_crc_ok() {
    payload_data_with_crc_ok();
}

#[test]
fn protocol_helpers_test_process_response_payload_data_with_crc_ok() {
    payload_data_with_crc_ok();
}

#[test]
fn mod_test_process_response_payload_data_with_crc_bad() {
    payload_data_with_crc_bad();
}

#[test]
fn protocol_helpers_test_process_response_payload_data_with_crc_bad() {
    payload_data_with_crc_bad();
}

#[test]
fn mod_test_process_response_payload_wrong_address() {
    payload_wrong_address();
}

#[test]
fn protocol_helpers_test_process_response_payload_wrong_address() {
    payload_wrong_address();
}

#[test]
fn mod_test_process_response_payload_address_query() {
    payload_address_query();
}

#[test]
fn protocol_helpers_test_process_response_payload_address_query() {
    payload_address_query();
}

#[test]
fn mod_test_process_response_payload_invalid_format() {
    payload_invalid_format();
}

#[test]
fn protocol_helpers_test_process_response_payload_invalid_format() {
    payload_invalid_format();
}

// ---- Whole transactions ----

#[test]
fn test_transaction_success_no_retry() {
    let mut bus = MockBus::new();
    bus.staged = b"0\r\n".to_vec();
    let cmd = Command::AcknowledgeActive { address: addr('0') };
    let mut tx = Transaction::new(cmd, None, 32);
    let result = run(&mut tx, &mut bus);
    assert!(result.is_ok());
    let (start, end) = result.unwrap();
    assert_eq!(&tx.line()[start..end], b"");
    assert!(bus.break_sent);
    assert_eq!(bus.write_log[..2], [b'0', b'!']);
    assert!(tx.last_activity().is_some());
}

#[test]
fn test_transaction_timeout_with_retries() {
    let mut bus = MockBus::new();
    let cmd = Command::AcknowledgeActive { address: addr('1') };
    let cmd_len = cmd.format_into().unwrap().len();
    let mut tx = Transaction::new(cmd, None, 32);
    let start_time = bus.now;
    let result = run(&mut tx, &mut bus);
    let end_time = bus.now;
    assert!(matches!(result, Err(Sdi12Error::Timeout)));
    assert_eq!(bus.write_log.len(), cmd_len * MAX_ATTEMPTS as usize);
    assert!(bus.reads > MAX_ATTEMPTS as u32);
    assert!(end_time - start_time >= 20_000 * (MAX_ATTEMPTS as u64 - 1));
}

#[test]
fn test_transaction_crc_error_no_retry() {
    let mut bus = MockBus::new();
    bus.staged = b"0+12.3XXX\r\n".to_vec();
    let cmd = Command::StartMeasurementCRC { address: addr('0'), index: MeasurementIndex::Base };
    let cmd_len = cmd.format_into().unwrap().len();
    let mut tx = Transaction::new(cmd, None, 32);
    let result = run(&mut tx, &mut bus);
    assert!(matches!(result, Err(Sdi12Error::CrcMismatch { .. })));
    assert_eq!(bus.write_log.len(), cmd_len);
}

#[test]
fn silent_sensor_takes_three_attempts_and_two_waits() {
    let mut bus = MockBus::new();
    let mut tx = Transaction::new(Command::AcknowledgeActive { address: addr('3') }, None, 32);
    let result = run(&mut tx, &mut bus);
    assert_eq!(result, Err(Sdi12Error::Timeout));
    assert_eq!(bus.flushes, 3);
    assert_eq!(bus.retry_waits.len(), 2);
    let waited: u64 = bus.retry_waits.iter().map(|w| *w as u64).sum();
    assert!(waited >= 2 * RETRY_WAIT_MIN_US);
    assert_eq!(tx.attempt(), 2);
    assert_eq!(tx.phase(), Phase::Done);
}

#[test]
fn retry_policy_values() {
    assert_eq!(retry_decision(0, RetryableFailure::Timeout), RetryDecision::Wait { us: 20_000 });
    assert_eq!(retry_decision(1, RetryableFailure::IncompleteLine), RetryDecision::Wait { us: 20_000 });
    assert_eq!(retry_decision(2, RetryableFailure::Timeout), RetryDecision::GiveUp(RetryableFailure::Timeout));
}

#[test]
fn break_decision_threshold() {
    assert!(break_needed(0, None));
    assert!(!break_needed(97_000, Some(10_000)));
    assert!(break_needed(97_001, Some(10_000)));
    assert!(!break_needed(5, Some(10_000)));
}

#[test]
fn transport_error_is_fatal() {
    let mut tx = Transaction::new(Command::AcknowledgeActive { address: addr('0') }, Some(0), 32);
    assert_eq!(tx.step(0, IoEvent::<MockCommError>::Done), Step::Perform(IoRequest::SetFraming(FrameFormat::Sdi12_7e1)));
    assert_eq!(tx.step(0, IoEvent::<MockCommError>::Done), Step::Perform(IoRequest::WriteByte(b'0')));
    assert_eq!(tx.step(0, IoEvent::Failed(MockCommError)), Step::Finished(Err(Sdi12Error::Io(MockCommError))));
    assert_eq!(tx.step(0, IoEvent::<MockCommError>::Done), Step::Finished(Err(Sdi12Error::InvalidFormat)));
}

#[test]
fn unencodable_command_fails_after_the_break() {
    let cmd = Command::ExtendedCommand { address: addr('0'), command_body: "TOO_LONG_BODY".to_string() };
    let mut tx = Transaction::new(cmd, None, 32);
    let mut bus = MockBus::new();
    let result = run(&mut tx, &mut bus);
    assert_eq!(result, Err(Sdi12Error::CommandFormatFailed(sdi12::CommandFormatError::BufferOverflow)));
    assert!(bus.break_sent);
    assert!(bus.write_log.is_empty());
}

/// Drives a transaction whose writes are answered by `write_outcome`
/// (called with the number of write polls so far) and whose reads return
/// `staged`.
fn run_with_writes(
    staged: &[u8],
    mut write_outcome: impl FnMut(u32) -> IoEvent<MockCommError>,
) -> (Result<(usize, usize), Sdi12Error<MockCommError>>, u32, u64) {
    let mut bus = MockBus::new();
    bus.staged = staged.to_vec();
    let mut tx = Transaction::new(Command::AcknowledgeActive { address: addr('0') }, Some(0), 32);
    let mut event = IoEvent::Done;
    let mut write_polls = 0u32;
    loop {
        match tx.step(bus.now, event) {
            Step::Finished(r) => return (r, write_polls, bus.now),
            Step::Perform(IoRequest::WriteByte(b)) => {
                write_polls += 1;
                event = write_outcome(write_polls);
                if event == IoEvent::Done {
                    bus.write_log.push(b);
                }
            },
            Step::Perform(req) => event = bus.perform(req),
        }
    }
}

#[test]
fn polling_retries_until_the_write_completes() {
    let (result, polls, _) = run_with_writes(b"0\r\n", |n| if n <= 3 { IoEvent::WouldBlock } else { IoEvent::Done });
    assert_eq!(result, Ok((1, 1)));
    assert_eq!(polls, 5);
}

#[test]
fn polling_stops_on_a_transport_error() {
    let (result, polls, _) = run_with_writes(b"0\r\n", |n| if n <= 2 { IoEvent::WouldBlock } else { IoEvent::Failed(MockCommError) });
    assert_eq!(result, Err(Sdi12Error::Io(MockCommError)));
    assert_eq!(polls, 3);
}

#[test]
fn a_write_that_never_completes_times_out_without_retry() {
    let (result, polls, now) = run_with_writes(b"0\r\n", |_| IoEvent::WouldBlock);
    assert_eq!(result, Err(Sdi12Error::Timeout));
    // Two bytes make the write deadline 2 x 8333 + 20000 us; polls are 100 us apart.
    assert!(now >= 36_666);
    assert!(polls >= 367);
}

#[test]
fn query_marker_is_not_a_response_address() {
    assert_eq!(payload(b"?\r\n", &Command::AddressQuery), Err(Sdi12Error::InvalidAddress('?')));
}

#[test]
fn high_volume_start_answer_carries_no_crc() {
    let cmd = Command::StartHighVolumeASCII { address: addr('0') };
    assert!(!cmd.requests_crc());
    assert_eq!(payload(b"000103\r\n", &cmd).unwrap(), b"00103");
}

fn blocking_io_ok() {
    let (result, polls, _) = run_with_writes(b"0\r\n", |n| if n <= 3 { IoEvent::WouldBlock } else { IoEvent::Done });
    assert_eq!(result, Ok((1, 1)));
    // The first byte is written on the fourth poll, the second on the fifth.
    assert_eq!(polls, 5);
}

fn blocking_io_err() {
    let (result, polls, _) = run_with_writes(b"0\r\n", |n| if n < 3 { IoEvent::WouldBlock } else { IoEvent::Failed(MockCommError) });
    assert!(matches!(result, Err(Sdi12Error::Io(MockCommError))));
    assert_eq!(polls, 3);
}

fn blocking_io_timeout() {
    let (result, polls, now) = run_with_writes(b"0\r\n", |_| IoEvent::WouldBlock);
    assert!(matches!(result, Err(Sdi12Error::Timeout)));
    assert!(now >= 36_666);
    assert!(polls > 3);
}

#[test]
fn test_execute_blocking_io_with_timeout_ok() {
    blocking_io_ok();
}

#[test]
fn test_execute_blocking_io_with_timeout_err() {
    blocking_io_err();
}

#[test]
fn test_execute_blocking_io_with_timeout_timeout() {
    blocking_io_timeout();
}

#[test]
fn io_helpers_test_execute_blocking_io_with_timeout() {
    blocking_io_ok();
    blocking_io_timeout();
    blocking_io_err();
}

#[test]
fn mod_test_execute_blocking_io_with_timeout() {
    blocking_io_ok();
    blocking_io_timeout();
    blocking_io_err();
}
