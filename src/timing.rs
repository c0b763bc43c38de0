//! Protocol timing, in microseconds.

use vstd::prelude::*;

verus! {

/// A break lasts at least this long.
pub const BREAK_DURATION_MIN_US: u64 = 12_000;

/// A sensor recognises a break longer than this.
pub const BREAK_RECOGNITION_MAX_US: u64 = 12_000;

/// A sensor ignores spacing shorter than this.
pub const BREAK_IGNORE_MAX_US: u64 = 6_500;

/// Marking after a break, before the address.
pub const POST_BREAK_MARKING_MIN_US: u64 = 8_330;

/// Time for the recorder to release the line after a command (with tolerance).
pub const RECORDER_RELEASE_TIME_MAX_US: u64 = 7_900;

/// Marking a sensor sends before its response.
pub const SENSOR_PRE_RESPONSE_MARKING_US: u64 = 8_330;

/// Latest start of a response after the command (with tolerance).
pub const RESPONSE_START_TIME_MAX_US: u64 = 15_400;

/// Time for a sensor to release the line after a response (with tolerance).
pub const SENSOR_RELEASE_TIME_MAX_US: u64 = 7_900;

/// Longest marking between two characters.
pub const INTER_CHARACTER_MARKING_MAX_US: u64 = 1_660;

/// Longest wake-up of a sensor after a break.
pub const SENSOR_WAKEUP_TIME_MAX_US: u64 = 100_000;

/// Marking after which a sensor goes back to sleep.
pub const SENSOR_SLEEP_MARKING_TIME_US: u64 = 100_000;

/// Past this much quiet time the next command needs a break first.
pub const PRE_COMMAND_BREAK_MARKING_THRESHOLD_US: u64 = 87_000;

/// Shortest wait before a retry.
pub const RETRY_WAIT_MIN_US: u64 = 16_670;

/// Longest wait before a retry without a break.
pub const RETRY_WAIT_MAX_NO_BREAK_US: u64 = 87_000;

/// Shortest delay after a break before a retry.
pub const RETRY_POST_BREAK_DELAY_MIN_US: u64 = 100_000;

/// Longest gap between the lines of a multi-line response.
pub const MULTILINE_INTER_LINE_DELAY_MAX_US: u64 = 150_000;

/// One bit at 1200 baud, in nanoseconds.
pub const BIT_DURATION_NS: u64 = 833_333;

/// One 10-bit character at 1200 baud.
pub const BYTE_DURATION_US: u64 = 8_333;

} // verus!
