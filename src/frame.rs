//! Serial frame formats.

use vstd::prelude::*;

verus! {

/// The serial frame formats SDI-12 uses.
#[derive(Debug, Copy, Clone, PartialEq, Eq, Structural)]
pub enum FrameFormat {
    /// 1200 baud, 7 data bits, even parity, 1 stop bit.
    Sdi12_7e1,
    /// 1200 baud, 8 data bits, no parity, 1 stop bit (high-volume binary).
    Binary8N1,
}

} // verus!
