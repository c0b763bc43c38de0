//! The command model: validated indices, the closed set of commands, and
//! their encoding into wire bytes.

use vstd::prelude::*;

use arrayvec::ArrayString;
use vstd::string::StringSliceAdditionalSpecFns;
use vstd::utf8::encode_utf8;

use crate::address::Sdi12Addr;

verus! {

/// An index outside the range its command allows.
#[derive(Debug, Copy, Clone, PartialEq, Eq, Structural)]
pub enum CommandIndexError {
    /// Measurement index not in 1-9.
    MeasurementOutOfRange,
    /// Continuous index not in 0-9.
    ContinuousOutOfRange,
    /// Data index not in 0-999.
    DataOutOfRange,
    /// Identify-parameter index not in 1-999.
    IdentifyParamOutOfRange,
}

/// A command that could not be encoded.
#[derive(Debug, Copy, Clone, PartialEq, Eq, Structural)]
pub enum CommandFormatError {
    /// The encoded command does not fit the buffer.
    BufferOverflow,
    /// The formatter reported an error.
    FmtError,
}

impl CommandIndexError {
    /// The allowed range, in words.
    pub fn message(&self) -> (r: &'static str)
        ensures
            r == match *self {
                CommandIndexError::MeasurementOutOfRange => "Measurement index must be 1-9",
                CommandIndexError::ContinuousOutOfRange => "Continuous index must be 0-9",
                CommandIndexError::DataOutOfRange => "Data index must be 0-999",
                CommandIndexError::IdentifyParamOutOfRange => "Identify Parameter index must be 1-999",
            },
    {
        match self {
            CommandIndexError::MeasurementOutOfRange => "Measurement index must be 1-9",
            CommandIndexError::ContinuousOutOfRange => "Continuous index must be 0-9",
            CommandIndexError::DataOutOfRange => "Data index must be 0-999",
            CommandIndexError::IdentifyParamOutOfRange => "Identify Parameter index must be 1-999",
        }
    }
}

impl CommandFormatError {
    /// The failure, in words.
    pub fn message(&self) -> (r: &'static str)
        ensures
            r == match *self {
                CommandFormatError::BufferOverflow => "Buffer overflow during formatting",
                CommandFormatError::FmtError => "Internal formatting error",
            },
    {
        match self {
            CommandFormatError::BufferOverflow => "Buffer overflow during formatting",
            CommandFormatError::FmtError => "Internal formatting error",
        }
    }
}

/// The formatter's error type, carried through unchanged.
#[verifier::external_type_specification]
#[verifier::external_body]
pub struct ExFmtError(core::fmt::Error);

impl From<core::fmt::Error> for CommandFormatError {
    fn from(e: core::fmt::Error) -> (r: Self)
        ensures
            r == CommandFormatError::FmtError,
    {
        CommandFormatError::FmtError
    }
}

impl vstd::std_specs::convert::FromSpecImpl<core::fmt::Error> for CommandFormatError {
    open spec fn obeys_from_spec() -> bool {
        true
    }

    open spec fn from_spec(v: core::fmt::Error) -> Self {
        CommandFormatError::FmtError
    }
}


/// Measurement index of the M, MC, C and CC commands: none, or 1-9.
#[derive(Debug, Copy, Clone, PartialEq, Eq, Structural)]
pub enum MeasurementIndex {
    Base,
    Indexed(u8),
}

impl MeasurementIndex {
    /// True of the indices that `new` can build.
    pub open spec fn wf(self) -> bool {
        match self {
            MeasurementIndex::Base => true,
            MeasurementIndex::Indexed(i) => 1 <= i && i <= 9,
        }
    }

    /// `None` gives `Base`; `Some(i)` gives `Indexed(i)` for `i` in 1-9 and
    /// fails otherwise.
    pub fn new(index_opt: Option<u8>) -> (r: Result<Self, CommandIndexError>)
        ensures
            match index_opt {
                None => r == Ok::<Self, CommandIndexError>(MeasurementIndex::Base),
                Some(i) => if 1 <= i && i <= 9 {
                    r == Ok::<Self, CommandIndexError>(MeasurementIndex::Indexed(i))
                } else {
                    r == Err::<Self, CommandIndexError>(CommandIndexError::MeasurementOutOfRange)
                },
            },
            r matches Ok(m) ==> m.wf(),
    {
        match index_opt {
            None => Ok(MeasurementIndex::Base),
            Some(i) => {
                if 1 <= i && i <= 9 {
                    Ok(MeasurementIndex::Indexed(i))
                } else {
                    Err(CommandIndexError::MeasurementOutOfRange)
                }
            },
        }
    }

    pub fn as_option(&self) -> (r: Option<u8>)
        ensures
            r == match *self {
                MeasurementIndex::Base => None::<u8>,
                MeasurementIndex::Indexed(i) => Some(i),
            },
    {
        match self {
            MeasurementIndex::Base => None,
            MeasurementIndex::Indexed(i) => Some(*i),
        }
    }
}

/// Index of the R and RC commands: 0-9.
#[derive(Debug, Copy, Clone, PartialEq, Eq, Structural)]
pub struct ContinuousIndex(u8);

impl View for ContinuousIndex {
    type V = u8;

    closed spec fn view(&self) -> u8 {
        self.0
    }
}

impl ContinuousIndex {
    #[verifier::type_invariant]
    spec fn inv(self) -> bool {
        self.0 <= 9
    }

    /// The index that holds `i`.
    pub closed spec fn spec_new(i: u8) -> ContinuousIndex {
        ContinuousIndex(i)
    }

    /// Two indices with the same value are the same index.
    pub proof fn lemma_view(a: ContinuousIndex, b: ContinuousIndex, i: u8)
        ensures
            Self::spec_new(i)@ == i,
            a@ == b@ <==> a == b,
    {
    }

    /// Succeeds exactly for `index` in 0-9.
    pub fn new(index: u8) -> (r: Result<Self, CommandIndexError>)
        ensures
            index <= 9 <==> r is Ok,
            r matches Ok(c) ==> c@ == index && c == Self::spec_new(index),
            r matches Err(e) ==> e == CommandIndexError::ContinuousOutOfRange,
    {
        if index <= 9 {
            Ok(ContinuousIndex(index))
        } else {
            Err(CommandIndexError::ContinuousOutOfRange)
        }
    }

    pub fn value(&self) -> (r: u8)
        ensures
            r == self@,
            r <= 9,
    {
        proof {
            use_type_invariant(self);
        }
        self.0
    }
}

impl TryFrom<u8> for ContinuousIndex {
    type Error = CommandIndexError;

    fn try_from(value: u8) -> (r: Result<Self, Self::Error>)
        ensures
            value <= 9 <==> r is Ok,
            r matches Ok(c) ==> c@ == value,
    {
        Self::new(value)
    }
}

impl vstd::std_specs::convert::TryFromSpecImpl<u8> for ContinuousIndex {
    open spec fn obeys_try_from_spec() -> bool {
        true
    }

    open spec fn try_from_spec(v: u8) -> Result<Self, Self::Error> {
        if v <= 9 {
            Ok(ContinuousIndex::spec_new(v))
        } else {
            Err(CommandIndexError::ContinuousOutOfRange)
        }
    }
}

/// Index of the D and DB commands: 0-999.
#[derive(Debug, Copy, Clone, PartialEq, Eq, Structural)]
pub struct DataIndex(u16);

impl View for DataIndex {
    type V = u16;

    closed spec fn view(&self) -> u16 {
        self.0
    }
}

impl DataIndex {
    #[verifier::type_invariant]
    spec fn inv(self) -> bool {
        self.0 <= 999
    }

    /// The index that holds `i`.
    pub closed spec fn spec_new(i: u16) -> DataIndex {
        DataIndex(i)
    }

    /// Two indices with the same value are the same index.
    pub proof fn lemma_view(a: DataIndex, b: DataIndex, i: u16)
        ensures
            Self::spec_new(i)@ == i,
            a@ == b@ <==> a == b,
    {
    }

    /// Succeeds exactly for `index` in 0-999.
    pub fn new(index: u16) -> (r: Result<Self, CommandIndexError>)
        ensures
            index <= 999 <==> r is Ok,
            r matches Ok(c) ==> c@ == index && c == Self::spec_new(index),
            r matches Err(e) ==> e == CommandIndexError::DataOutOfRange,
    {
        if index <= 999 {
            Ok(DataIndex(index))
        } else {
            Err(CommandIndexError::DataOutOfRange)
        }
    }

    pub fn value(&self) -> (r: u16)
        ensures
            r == self@,
            r <= 999,
    {
        proof {
            use_type_invariant(self);
        }
        self.0
    }
}

impl TryFrom<u16> for DataIndex {
    type Error = CommandIndexError;

    fn try_from(value: u16) -> (r: Result<Self, Self::Error>)
        ensures
            value <= 999 <==> r is Ok,
            r matches Ok(c) ==> c@ == value,
    {
        Self::new(value)
    }
}

impl vstd::std_specs::convert::TryFromSpecImpl<u16> for DataIndex {
    open spec fn obeys_try_from_spec() -> bool {
        true
    }

    open spec fn try_from_spec(v: u16) -> Result<Self, Self::Error> {
        if v <= 999 {
            Ok(DataIndex::spec_new(v))
        } else {
            Err(CommandIndexError::DataOutOfRange)
        }
    }
}

/// Parameter index `nnn` of the identify-parameter commands: 1-999.
#[derive(Debug, Copy, Clone, PartialEq, Eq, Structural)]
pub struct IdentifyParameterIndex(u16);

impl View for IdentifyParameterIndex {
    type V = u16;

    closed spec fn view(&self) -> u16 {
        self.0
    }
}

impl IdentifyParameterIndex {
    #[verifier::type_invariant]
    spec fn inv(self) -> bool {
        1 <= self.0 && self.0 <= 999
    }

    /// The index that holds `i`.
    pub closed spec fn spec_new(i: u16) -> IdentifyParameterIndex {
        IdentifyParameterIndex(i)
    }

    /// Two indices with the same value are the same index.
    pub proof fn lemma_view(a: IdentifyParameterIndex, b: IdentifyParameterIndex, i: u16)
        ensures
            Self::spec_new(i)@ == i,
            a@ == b@ <==> a == b,
    {
    }

    /// Succeeds exactly for `index` in 1-999.
    pub fn new(index: u16) -> (r: Result<Self, CommandIndexError>)
        ensures
            1 <= index <= 999 <==> r is Ok,
            r matches Ok(c) ==> c@ == index && c == Self::spec_new(index),
            r matches Err(e) ==> e == CommandIndexError::IdentifyParamOutOfRange,
    {
        if 1 <= index && index <= 999 {
            Ok(IdentifyParameterIndex(index))
        } else {
            Err(CommandIndexError::IdentifyParamOutOfRange)
        }
    }

    pub fn value(&self) -> (r: u16)
        ensures
            r == self@,
            1 <= r <= 999,
    {
        proof {
            use_type_invariant(self);
        }
        self.0
    }
}

impl TryFrom<u16> for IdentifyParameterIndex {
    type Error = CommandIndexError;

    fn try_from(value: u16) -> (r: Result<Self, Self::Error>)
        ensures
            1 <= value <= 999 <==> r is Ok,
            r matches Ok(c) ==> c@ == value,
    {
        Self::new(value)
    }
}

impl vstd::std_specs::convert::TryFromSpecImpl<u16> for IdentifyParameterIndex {
    open spec fn obeys_try_from_spec() -> bool {
        true
    }

    open spec fn try_from_spec(v: u16) -> Result<Self, Self::Error> {
        if 1 <= v && v <= 999 {
            Ok(IdentifyParameterIndex::spec_new(v))
        } else {
            Err(CommandIndexError::IdentifyParamOutOfRange)
        }
    }
}


/// The closed set of SDI-12 commands a recorder can send.
#[derive(Debug, Clone, PartialEq, Eq)]
pub enum Command {
    AcknowledgeActive { address: Sdi12Addr },
    SendIdentification { address: Sdi12Addr },
    AddressQuery,
    ChangeAddress { address: Sdi12Addr, new_address: Sdi12Addr },
    StartMeasurement { address: Sdi12Addr, index: MeasurementIndex },
    StartMeasurementCRC { address: Sdi12Addr, index: MeasurementIndex },
    StartConcurrentMeasurement { address: Sdi12Addr, index: MeasurementIndex },
    StartConcurrentMeasurementCRC { address: Sdi12Addr, index: MeasurementIndex },
    SendData { address: Sdi12Addr, index: DataIndex },
    SendBinaryData { address: Sdi12Addr, index: DataIndex },
    ReadContinuous { address: Sdi12Addr, index: ContinuousIndex },
    ReadContinuousCRC { address: Sdi12Addr, index: ContinuousIndex },
    StartVerification { address: Sdi12Addr },
    StartHighVolumeASCII { address: Sdi12Addr },
    StartHighVolumeBinary { address: Sdi12Addr },
    IdentifyMeasurement(IdentifyMeasurementCommand),
    IdentifyMeasurementParameter(IdentifyMeasurementParameterCommand),
    /// A manufacturer command: the address, then `command_body`, then `!`.
    ExtendedCommand { address: Sdi12Addr, command_body: String },
}

/// The identify-measurement commands (`aIM!`, `aIMC1!`, `aIV!`, ...).
#[derive(Debug, Copy, Clone, PartialEq, Eq, Structural)]
pub enum IdentifyMeasurementCommand {
    Measurement { address: Sdi12Addr, index: MeasurementIndex },
    MeasurementCRC { address: Sdi12Addr, index: MeasurementIndex },
    Verification { address: Sdi12Addr },
    ConcurrentMeasurement { address: Sdi12Addr, index: MeasurementIndex },
    ConcurrentMeasurementCRC { address: Sdi12Addr, index: MeasurementIndex },
    HighVolumeASCII { address: Sdi12Addr },
    HighVolumeBinary { address: Sdi12Addr },
}

/// The identify-measurement-parameter commands (`aIM_001!`, `aIR2_045!`, ...).
#[derive(Debug, Copy, Clone, PartialEq, Eq, Structural)]
pub enum IdentifyMeasurementParameterCommand {
    Measurement {
        address: Sdi12Addr,
        m_index: MeasurementIndex,
        param_index: IdentifyParameterIndex,
    },
    MeasurementCRC {
        address: Sdi12Addr,
        m_index: MeasurementIndex,
        param_index: IdentifyParameterIndex,
    },
    Verification { address: Sdi12Addr, param_index: IdentifyParameterIndex },
    ConcurrentMeasurement {
        address: Sdi12Addr,
        c_index: MeasurementIndex,
        param_index: IdentifyParameterIndex,
    },
    ConcurrentMeasurementCRC {
        address: Sdi12Addr,
        c_index: MeasurementIndex,
        param_index: IdentifyParameterIndex,
    },
    ReadContinuous {
        address: Sdi12Addr,
        r_index: ContinuousIndex,
        param_index: IdentifyParameterIndex,
    },
    ReadContinuousCRC {
        address: Sdi12Addr,
        r_index: ContinuousIndex,
        param_index: IdentifyParameterIndex,
    },
    HighVolumeASCII { address: Sdi12Addr, param_index: IdentifyParameterIndex },
    HighVolumeBinary { address: Sdi12Addr, param_index: IdentifyParameterIndex },
}

// ---- Wire form ----

/// The ASCII byte of a decimal digit.
pub open spec fn digit_byte(d: nat) -> u8 {
    (48 + d) as u8
}

/// `n` in decimal, without leading zeros.
pub open spec fn decimal(n: nat) -> Seq<u8>
    decreases n,
{
    if n < 10 {
        seq![digit_byte(n)]
    } else {
        decimal(n / 10) + seq![digit_byte(n % 10)]
    }
}

/// `n` (below 1000) in exactly three decimal digits.
pub open spec fn decimal3(n: nat) -> Seq<u8> {
    seq![digit_byte(n / 100), digit_byte((n / 10) % 10), digit_byte(n % 10)]
}

/// True when every byte is below 128.
pub open spec fn ascii_bytes(s: Seq<u8>) -> bool {
    forall|i: int| 0 <= i < s.len() ==> s[i] < 128
}

/// The byte of an ASCII character.
pub open spec fn byte_of(c: char) -> u8 {
    (c as u32) as u8
}

/// The byte that carries an address on the wire.
pub open spec fn addr_byte(a: Sdi12Addr) -> u8 {
    byte_of(a@)
}

/// A measurement index as a suffix: nothing for `Base`, else its decimal.
pub open spec fn m_suffix(i: MeasurementIndex) -> Seq<u8> {
    match i {
        MeasurementIndex::Base => seq![],
        MeasurementIndex::Indexed(n) => decimal(n as nat),
    }
}

/// `_nnn`: a parameter index, zero-padded to three digits.
pub open spec fn param_suffix(p: IdentifyParameterIndex) -> Seq<u8> {
    seq![95u8] + decimal3(p@ as nat)
}

impl IdentifyMeasurementCommand {
    pub open spec fn spec_address(self) -> Sdi12Addr {
        match self {
            IdentifyMeasurementCommand::Measurement { address, .. } => address,
            IdentifyMeasurementCommand::MeasurementCRC { address, .. } => address,
            IdentifyMeasurementCommand::Verification { address } => address,
            IdentifyMeasurementCommand::ConcurrentMeasurement { address, .. } => address,
            IdentifyMeasurementCommand::ConcurrentMeasurementCRC { address, .. } => address,
            IdentifyMeasurementCommand::HighVolumeASCII { address } => address,
            IdentifyMeasurementCommand::HighVolumeBinary { address } => address,
        }
    }

    /// The command code and index, between the address and the `!`.
    pub open spec fn body(self) -> Seq<u8> {
        match self {
            IdentifyMeasurementCommand::Measurement { index, .. } => seq![('I' as u8), ('M' as u8)]
                + m_suffix(index),
            IdentifyMeasurementCommand::MeasurementCRC { index, .. } => seq![('I' as u8), ('M' as u8), ('C' as u8)]
                + m_suffix(index),
            IdentifyMeasurementCommand::Verification { .. } => seq![('I' as u8), ('V' as u8)],
            IdentifyMeasurementCommand::ConcurrentMeasurement { index, .. } => seq![('I' as u8), ('C' as u8)] + m_suffix(index),
            IdentifyMeasurementCommand::ConcurrentMeasurementCRC { index, .. } => seq![('I' as u8), ('C' as u8), ('C' as u8)] + m_suffix(index),
            IdentifyMeasurementCommand::HighVolumeASCII { .. } => seq![('I' as u8), ('H' as u8), ('A' as u8)],
            IdentifyMeasurementCommand::HighVolumeBinary { .. } => seq![('I' as u8), ('H' as u8), ('B' as u8)],
        }
    }
}

impl IdentifyMeasurementParameterCommand {
    pub open spec fn spec_address(self) -> Sdi12Addr {
        match self {
            IdentifyMeasurementParameterCommand::Measurement { address, .. } => address,
            IdentifyMeasurementParameterCommand::MeasurementCRC { address, .. } => address,
            IdentifyMeasurementParameterCommand::Verification { address, .. } => address,
            IdentifyMeasurementParameterCommand::ConcurrentMeasurement { address, .. } => address,
            IdentifyMeasurementParameterCommand::ConcurrentMeasurementCRC { address, .. } => address,
            IdentifyMeasurementParameterCommand::ReadContinuous { address, .. } => address,
            IdentifyMeasurementParameterCommand::ReadContinuousCRC { address, .. } => address,
            IdentifyMeasurementParameterCommand::HighVolumeASCII { address, .. } => address,
            IdentifyMeasurementParameterCommand::HighVolumeBinary { address, .. } => address,
        }
    }

    pub open spec fn param(self) -> IdentifyParameterIndex {
        match self {
            IdentifyMeasurementParameterCommand::Measurement { param_index, .. } => param_index,
            IdentifyMeasurementParameterCommand::MeasurementCRC { param_index, .. } => param_index,
            IdentifyMeasurementParameterCommand::Verification { param_index, .. } => param_index,
            IdentifyMeasurementParameterCommand::ConcurrentMeasurement { param_index, .. } => param_index,
            IdentifyMeasurementParameterCommand::ConcurrentMeasurementCRC { param_index, .. } => param_index,
            IdentifyMeasurementParameterCommand::ReadContinuous { param_index, .. } => param_index,
            IdentifyMeasurementParameterCommand::ReadContinuousCRC { param_index, .. } => param_index,
            IdentifyMeasurementParameterCommand::HighVolumeASCII { param_index, .. } => param_index,
            IdentifyMeasurementParameterCommand::HighVolumeBinary { param_index, .. } => param_index,
        }
    }

    /// The body without its `_nnn` suffix.
    pub open spec fn main_part(self) -> Seq<u8> {
        match self {
            IdentifyMeasurementParameterCommand::Measurement { m_index, .. } => seq![('I' as u8), ('M' as u8)] + m_suffix(m_index),
            IdentifyMeasurementParameterCommand::MeasurementCRC { m_index, .. } => seq![('I' as u8), ('M' as u8), ('C' as u8)] + m_suffix(m_index),
            IdentifyMeasurementParameterCommand::Verification { .. } => seq![('I' as u8), ('V' as u8)],
            IdentifyMeasurementParameterCommand::ConcurrentMeasurement { c_index, .. } => seq![('I' as u8), ('C' as u8)] + m_suffix(c_index),
            IdentifyMeasurementParameterCommand::ConcurrentMeasurementCRC { c_index, .. } => seq![('I' as u8), ('C' as u8), ('C' as u8)] + m_suffix(c_index),
            IdentifyMeasurementParameterCommand::ReadContinuous { r_index, .. } => seq![('I' as u8), ('R' as u8)] + decimal(r_index@ as nat),
            IdentifyMeasurementParameterCommand::ReadContinuousCRC { r_index, .. } => seq![('I' as u8), ('R' as u8), ('C' as u8)] + decimal(r_index@ as nat),
            IdentifyMeasurementParameterCommand::HighVolumeASCII { .. } => seq![('I' as u8), ('H' as u8), ('A' as u8)],
            IdentifyMeasurementParameterCommand::HighVolumeBinary { .. } => seq![('I' as u8), ('H' as u8), ('B' as u8)],
        }
    }

    /// The command code, indices and `_nnn`, between the address and the `!`.
    pub open spec fn body(self) -> Seq<u8> {
        match self {
            IdentifyMeasurementParameterCommand::Measurement { m_index, param_index, .. } => seq![('I' as u8), ('M' as u8)] + m_suffix(m_index) + param_suffix(param_index),
            IdentifyMeasurementParameterCommand::MeasurementCRC { m_index, param_index, .. } => seq![('I' as u8), ('M' as u8), ('C' as u8)] + m_suffix(m_index) + param_suffix(param_index),
            IdentifyMeasurementParameterCommand::Verification { param_index, .. } => seq![('I' as u8), ('V' as u8)] + param_suffix(param_index),
            IdentifyMeasurementParameterCommand::ConcurrentMeasurement {
                c_index,
                param_index,
                ..
            } => seq![('I' as u8), ('C' as u8)] + m_suffix(c_index) + param_suffix(param_index),
            IdentifyMeasurementParameterCommand::ConcurrentMeasurementCRC {
                c_index,
                param_index,
                ..
            } => seq![('I' as u8), ('C' as u8), ('C' as u8)] + m_suffix(c_index) + param_suffix(param_index),
            IdentifyMeasurementParameterCommand::ReadContinuous { r_index, param_index, .. } => seq![('I' as u8), ('R' as u8)] + decimal(r_index@ as nat) + param_suffix(param_index),
            IdentifyMeasurementParameterCommand::ReadContinuousCRC {
                r_index,
                param_index,
                ..
            } => seq![('I' as u8), ('R' as u8), ('C' as u8)] + decimal(r_index@ as nat) + param_suffix(param_index),
            IdentifyMeasurementParameterCommand::HighVolumeASCII { param_index, .. } => seq![('I' as u8), ('H' as u8), ('A' as u8)] + param_suffix(param_index),
            IdentifyMeasurementParameterCommand::HighVolumeBinary { param_index, .. } => seq![('I' as u8), ('H' as u8), ('B' as u8)] + param_suffix(param_index),
        }
    }
}

impl Command {
    /// The address the command is sent to; `?` for the address query.
    pub open spec fn spec_address(self) -> char {
        match self {
            Command::AcknowledgeActive { address } => address@,
            Command::SendIdentification { address } => address@,
            Command::AddressQuery => '?',
            Command::ChangeAddress { address, .. } => address@,
            Command::StartMeasurement { address, .. } => address@,
            Command::StartMeasurementCRC { address, .. } => address@,
            Command::StartConcurrentMeasurement { address, .. } => address@,
            Command::StartConcurrentMeasurementCRC { address, .. } => address@,
            Command::SendData { address, .. } => address@,
            Command::SendBinaryData { address, .. } => address@,
            Command::ReadContinuous { address, .. } => address@,
            Command::ReadContinuousCRC { address, .. } => address@,
            Command::StartVerification { address } => address@,
            Command::StartHighVolumeASCII { address } => address@,
            Command::StartHighVolumeBinary { address } => address@,
            Command::IdentifyMeasurement(c) => c.spec_address()@,
            Command::IdentifyMeasurementParameter(c) => c.spec_address()@,
            Command::ExtendedCommand { address, .. } => address@,
        }
    }

    /// The address value of a command sent to a sensor.
    pub open spec fn sender(self) -> Sdi12Addr {
        match self {
            Command::AcknowledgeActive { address } => address,
            Command::SendIdentification { address } => address,
            Command::AddressQuery => Sdi12Addr::spec_from_char('?'),
            Command::ChangeAddress { address, .. } => address,
            Command::StartMeasurement { address, .. } => address,
            Command::StartMeasurementCRC { address, .. } => address,
            Command::StartConcurrentMeasurement { address, .. } => address,
            Command::StartConcurrentMeasurementCRC { address, .. } => address,
            Command::SendData { address, .. } => address,
            Command::SendBinaryData { address, .. } => address,
            Command::ReadContinuous { address, .. } => address,
            Command::ReadContinuousCRC { address, .. } => address,
            Command::StartVerification { address } => address,
            Command::StartHighVolumeASCII { address } => address,
            Command::StartHighVolumeBinary { address } => address,
            Command::IdentifyMeasurement(c) => c.spec_address(),
            Command::IdentifyMeasurementParameter(c) => c.spec_address(),
            Command::ExtendedCommand { address, .. } => address,
        }
    }

    /// The bytes between the address and the terminating `!`.
    pub open spec fn body(self) -> Seq<u8> {
        match self {
            Command::AcknowledgeActive { .. } => seq![],
            Command::SendIdentification { .. } => seq![('I' as u8)],
            Command::AddressQuery => seq![],
            Command::ChangeAddress { new_address, .. } => seq![('A' as u8)] + seq![
                addr_byte(new_address),
            ],
            Command::StartMeasurement { index, .. } => seq![('M' as u8)] + m_suffix(index),
            Command::StartMeasurementCRC { index, .. } => seq![('M' as u8), ('C' as u8)] + m_suffix(index),
            Command::StartConcurrentMeasurement { index, .. } => seq![('C' as u8)] + m_suffix(index),
            Command::StartConcurrentMeasurementCRC { index, .. } => seq![('C' as u8), ('C' as u8)] + m_suffix(
                index,
            ),
            Command::SendData { index, .. } => seq![('D' as u8)] + decimal(index@ as nat),
            Command::SendBinaryData { index, .. } => seq![('D' as u8), ('B' as u8)] + decimal(
                index@ as nat,
            ),
            Command::ReadContinuous { index, .. } => seq![('R' as u8)] + decimal(index@ as nat),
            Command::ReadContinuousCRC { index, .. } => seq![('R' as u8), ('C' as u8)] + decimal(
                index@ as nat,
            ),
            Command::StartVerification { .. } => seq![('V' as u8)],
            Command::StartHighVolumeASCII { .. } => seq![('H' as u8), ('A' as u8)],
            Command::StartHighVolumeBinary { .. } => seq![('H' as u8), ('B' as u8)],
            Command::IdentifyMeasurement(c) => c.body(),
            Command::IdentifyMeasurementParameter(c) => c.body(),
            Command::ExtendedCommand { command_body, .. } => encode_utf8(command_body@),
        }
    }

    /// The exact wire form: address, body, `!`.
    pub open spec fn wire(self) -> Seq<u8> {
        seq![byte_of(self.spec_address())] + self.body() + seq![('!' as u8)]
    }
}


// ---- Encoding buffer ----

/// Capacity of the buffer a command is encoded into: the longest standard
/// command, `aICC9_999!`, has ten bytes.
pub const COMMAND_CAPACITY: usize = 10;

#[verifier::external_type_specification]
#[verifier::external_body]
pub struct ExArrayString<const CAP: usize>(ArrayString<CAP>);

/// The bytes held by an encoding buffer.
pub uninterp spec fn command_buffer_bytes(s: ArrayString<10>) -> Seq<u8>;

/// Relies on `ArrayString::new`: the new string is empty.
#[verifier::external_body]
fn command_buffer_new() -> (r: ArrayString<10>)
    ensures
        command_buffer_bytes(r) == Seq::<u8>::empty(),
{
    ArrayString::<10>::new()
}

/// Relies on `ArrayString::try_push`: an ASCII character takes one byte and
/// is appended exactly when one byte of capacity is left; on failure the
/// string is unchanged.
#[verifier::external_body]
fn command_buffer_push(buf: &mut ArrayString<10>, c: char) -> (ok: bool)
    requires
        (c as u32) < 128,
    ensures
        ok == (command_buffer_bytes(*old(buf)).len() < 10),
        ok ==> command_buffer_bytes(*final(buf)) == command_buffer_bytes(*old(buf)).push(
            byte_of(c),
        ),
        !ok ==> command_buffer_bytes(*final(buf)) == command_buffer_bytes(*old(buf)),
{
    buf.try_push(c).is_ok()
}

/// Relies on `ArrayString::try_push_str`: the UTF-8 bytes of `s` are appended
/// exactly when they fit; on failure the string is unchanged.
#[verifier::external_body]
fn command_buffer_push_str(buf: &mut ArrayString<10>, s: &str) -> (ok: bool)
    ensures
        ok == (command_buffer_bytes(*old(buf)).len() + s.spec_bytes().len() <= 10),
        ok ==> command_buffer_bytes(*final(buf)) == command_buffer_bytes(*old(buf))
            + s.spec_bytes(),
        !ok ==> command_buffer_bytes(*final(buf)) == command_buffer_bytes(*old(buf)),
{
    buf.try_push_str(s).is_ok()
}

/// Relies on `ArrayString::as_str`: the string's bytes, in order.
#[verifier::external_body]
pub(crate) fn command_buffer_as_bytes(buf: &ArrayString<10>) -> (r: &[u8])
    ensures
        r@ == command_buffer_bytes(*buf),
{
    buf.as_str().as_bytes()
}

/// The ASCII byte of decimal digit `d`.
fn digit(d: u16) -> (r: u8)
    requires
        d < 10,
    ensures
        r == digit_byte(d as nat),
        48 <= r < 58,
{
    (48 + d) as u8
}

/// Appends `n` in decimal, without leading zeros.
fn push_decimal(v: &mut Vec<u8>, n: u16)
    requires
        n <= 999,
        ascii_bytes(old(v)@),
    ensures
        final(v)@ == old(v)@ + decimal(n as nat),
        ascii_bytes(final(v)@),
{
    let ghost n0 = n as nat;
    if n >= 100 {
        v.push(digit(n / 100));
        proof {
            assert(decimal(n0 / 100) == seq![digit_byte(n0 / 100)]);
            assert(decimal(n0 / 10) == decimal((n0 / 10) / 10) + seq![digit_byte((n0 / 10) % 10)]);
            assert((n0 / 10) / 10 == n0 / 100);
        }
    }
    if n >= 10 {
        v.push(digit((n / 10) % 10));
    }
    v.push(digit(n % 10));
    proof {
        if n0 >= 100 {
            assert(decimal(n0) =~= seq![digit_byte(n0 / 100), digit_byte((n0 / 10) % 10), digit_byte(n0 % 10)]);
        } else if n0 >= 10 {
            assert(decimal(n0 / 10) == seq![digit_byte(n0 / 10)]);
            assert((n0 / 10) % 10 == n0 / 10);
            assert(decimal(n0) =~= seq![digit_byte(n0 / 10), digit_byte(n0 % 10)]);
        } else {
            assert(n0 % 10 == n0);
        }
        assert(final(v)@ =~= old(v)@ + decimal(n0));
    }
}

/// Appends a measurement index as a suffix.
fn push_m_suffix(v: &mut Vec<u8>, i: MeasurementIndex)
    requires
        ascii_bytes(old(v)@),
    ensures
        ascii_bytes(final(v)@),
        final(v)@ == old(v)@ + m_suffix(i),
{
    match i {
        MeasurementIndex::Base => {
            assert(final(v)@ =~= old(v)@ + m_suffix(i));
        },
        MeasurementIndex::Indexed(n) => push_decimal(v, n as u16),
    }
}

/// Appends `_nnn`.
fn push_param_suffix(v: &mut Vec<u8>, p: IdentifyParameterIndex)
    requires
        ascii_bytes(old(v)@),
    ensures
        ascii_bytes(final(v)@),
        final(v)@ == old(v)@ + param_suffix(p),
{
    let n = p.value();
    v.push(('_' as u8));
    v.push(digit(n / 100));
    v.push(digit((n / 10) % 10));
    v.push(digit(n % 10));
    assert(final(v)@ =~= old(v)@ + param_suffix(p));
}

impl IdentifyMeasurementCommand {
    pub fn address(&self) -> (r: Sdi12Addr)
        ensures
            r == self.spec_address(),
    {
        match self {
            IdentifyMeasurementCommand::Measurement { address, .. } => *address,
            IdentifyMeasurementCommand::MeasurementCRC { address, .. } => *address,
            IdentifyMeasurementCommand::Verification { address } => *address,
            IdentifyMeasurementCommand::ConcurrentMeasurement { address, .. } => *address,
            IdentifyMeasurementCommand::ConcurrentMeasurementCRC { address, .. } => *address,
            IdentifyMeasurementCommand::HighVolumeASCII { address } => *address,
            IdentifyMeasurementCommand::HighVolumeBinary { address } => *address,
        }
    }

    fn push_body(&self, v: &mut Vec<u8>)
        requires
            ascii_bytes(old(v)@),
        ensures
            ascii_bytes(final(v)@),
            final(v)@ == old(v)@ + self.body(),
    {
        match self {
            IdentifyMeasurementCommand::Measurement { index, .. } => {
                v.push(('I' as u8)); v.push(('M' as u8));
                push_m_suffix(v, *index);
            },
            IdentifyMeasurementCommand::MeasurementCRC { index, .. } => {
                v.push(('I' as u8)); v.push(('M' as u8)); v.push(('C' as u8));
                push_m_suffix(v, *index);
            },
            IdentifyMeasurementCommand::Verification { .. } => {
                v.push(('I' as u8));
                v.push(('V' as u8));
            },
            IdentifyMeasurementCommand::ConcurrentMeasurement { index, .. } => {
                v.push(('I' as u8)); v.push(('C' as u8));
                push_m_suffix(v, *index);
            },
            IdentifyMeasurementCommand::ConcurrentMeasurementCRC { index, .. } => {
                v.push(('I' as u8)); v.push(('C' as u8)); v.push(('C' as u8));
                push_m_suffix(v, *index);
            },
            IdentifyMeasurementCommand::HighVolumeASCII { .. } => {
                v.push(('I' as u8));
                v.push(('H' as u8));
                v.push(('A' as u8));
            },
            IdentifyMeasurementCommand::HighVolumeBinary { .. } => {
                v.push(('I' as u8));
                v.push(('H' as u8));
                v.push(('B' as u8));
            },
        }
        assert(final(v)@ =~= old(v)@ + self.body());
    }
}

impl IdentifyMeasurementParameterCommand {
    pub fn address(&self) -> (r: Sdi12Addr)
        ensures
            r == self.spec_address(),
    {
        match self {
            IdentifyMeasurementParameterCommand::Measurement { address, .. } => *address,
            IdentifyMeasurementParameterCommand::MeasurementCRC { address, .. } => *address,
            IdentifyMeasurementParameterCommand::Verification { address, .. } => *address,
            IdentifyMeasurementParameterCommand::ConcurrentMeasurement { address, .. } => *address,
            IdentifyMeasurementParameterCommand::ConcurrentMeasurementCRC { address, .. } => *address,
            IdentifyMeasurementParameterCommand::ReadContinuous { address, .. } => *address,
            IdentifyMeasurementParameterCommand::ReadContinuousCRC { address, .. } => *address,
            IdentifyMeasurementParameterCommand::HighVolumeASCII { address, .. } => *address,
            IdentifyMeasurementParameterCommand::HighVolumeBinary { address, .. } => *address,
        }
    }

    fn push_body(&self, v: &mut Vec<u8>)
        requires
            ascii_bytes(old(v)@),
        ensures
            ascii_bytes(final(v)@),
            final(v)@ == old(v)@ + self.body(),
    {
        match self {
            IdentifyMeasurementParameterCommand::Measurement { m_index, param_index, .. } => {
                v.push(('I' as u8)); v.push(('M' as u8));
                push_m_suffix(v, *m_index);
                push_param_suffix(v, *param_index);
            },
            IdentifyMeasurementParameterCommand::MeasurementCRC { m_index, param_index, .. } => {
                v.push(('I' as u8)); v.push(('M' as u8)); v.push(('C' as u8));
                push_m_suffix(v, *m_index);
                push_param_suffix(v, *param_index);
            },
            IdentifyMeasurementParameterCommand::Verification { param_index, .. } => {
                v.push(('I' as u8)); v.push(('V' as u8));
                push_param_suffix(v, *param_index);
            },
            IdentifyMeasurementParameterCommand::ConcurrentMeasurement {
                c_index,
                param_index,
                ..
            } => {
                v.push(('I' as u8)); v.push(('C' as u8));
                push_m_suffix(v, *c_index);
                push_param_suffix(v, *param_index);
            },
            IdentifyMeasurementParameterCommand::ConcurrentMeasurementCRC {
                c_index,
                param_index,
                ..
            } => {
                v.push(('I' as u8)); v.push(('C' as u8)); v.push(('C' as u8));
                push_m_suffix(v, *c_index);
                push_param_suffix(v, *param_index);
            },
            IdentifyMeasurementParameterCommand::ReadContinuous { r_index, param_index, .. } => {
                v.push(('I' as u8)); v.push(('R' as u8));
                push_decimal(v, r_index.value() as u16);
                push_param_suffix(v, *param_index);
            },
            IdentifyMeasurementParameterCommand::ReadContinuousCRC {
                r_index,
                param_index,
                ..
            } => {
                v.push(('I' as u8)); v.push(('R' as u8)); v.push(('C' as u8));
                push_decimal(v, r_index.value() as u16);
                push_param_suffix(v, *param_index);
            },
            IdentifyMeasurementParameterCommand::HighVolumeASCII { param_index, .. } => {
                v.push(('I' as u8)); v.push(('H' as u8)); v.push(('A' as u8));
                push_param_suffix(v, *param_index);
            },
            IdentifyMeasurementParameterCommand::HighVolumeBinary { param_index, .. } => {
                v.push(('I' as u8)); v.push(('H' as u8)); v.push(('B' as u8));
                push_param_suffix(v, *param_index);
            },
        }
        assert(final(v)@ =~= old(v)@ + self.body());
    }
}

impl Command {
    /// The address the command is sent to; `?` for the address query.
    pub fn address(&self) -> (r: Sdi12Addr)
        ensures
            r@ == self.spec_address(),
    {
        let r = match self {
            Command::AcknowledgeActive { address } => *address,
            Command::SendIdentification { address } => *address,
            Command::AddressQuery => Sdi12Addr::query_address(),
            Command::ChangeAddress { address, .. } => *address,
            Command::StartMeasurement { address, .. } => *address,
            Command::StartMeasurementCRC { address, .. } => *address,
            Command::StartConcurrentMeasurement { address, .. } => *address,
            Command::StartConcurrentMeasurementCRC { address, .. } => *address,
            Command::SendData { address, .. } => *address,
            Command::SendBinaryData { address, .. } => *address,
            Command::ReadContinuous { address, .. } => *address,
            Command::ReadContinuousCRC { address, .. } => *address,
            Command::StartVerification { address } => *address,
            Command::StartHighVolumeASCII { address } => *address,
            Command::StartHighVolumeBinary { address } => *address,
            Command::IdentifyMeasurement(c) => c.address(),
            Command::IdentifyMeasurementParameter(c) => c.address(),
            Command::ExtendedCommand { address, .. } => *address,
        };
        r
    }

    /// Appends the body of a command other than an extended one.
    fn push_standard_body(&self, v: &mut Vec<u8>)
        requires
            !(self is ExtendedCommand),
            ascii_bytes(old(v)@),
        ensures
            ascii_bytes(final(v)@),
            final(v)@ == old(v)@ + self.body(),
    {
        match self {
            Command::AcknowledgeActive { .. } => {},
            Command::SendIdentification { .. } => {
                v.push(('I' as u8));
            },
            Command::AddressQuery => {},
            Command::ChangeAddress { new_address, .. } => {
                v.push(('A' as u8));
                v.push(new_address.as_char() as u8);
            },
            Command::StartMeasurement { index, .. } => {
                v.push(('M' as u8));
                push_m_suffix(v, *index);
            },
            Command::StartMeasurementCRC { index, .. } => {
                v.push(('M' as u8)); v.push(('C' as u8));
                push_m_suffix(v, *index);
            },
            Command::StartConcurrentMeasurement { index, .. } => {
                v.push(('C' as u8));
                push_m_suffix(v, *index);
            },
            Command::StartConcurrentMeasurementCRC { index, .. } => {
                v.push(('C' as u8)); v.push(('C' as u8));
                push_m_suffix(v, *index);
            },
            Command::SendData { index, .. } => {
                v.push(('D' as u8));
                push_decimal(v, index.value());
            },
            Command::SendBinaryData { index, .. } => {
                v.push(('D' as u8)); v.push(('B' as u8));
                push_decimal(v, index.value());
            },
            Command::ReadContinuous { index, .. } => {
                v.push(('R' as u8));
                push_decimal(v, index.value() as u16);
            },
            Command::ReadContinuousCRC { index, .. } => {
                v.push(('R' as u8)); v.push(('C' as u8));
                push_decimal(v, index.value() as u16);
            },
            Command::StartVerification { .. } => {
                v.push(('V' as u8));
            },
            Command::StartHighVolumeASCII { .. } => {
                v.push(('H' as u8));
                v.push(('A' as u8));
            },
            Command::StartHighVolumeBinary { .. } => {
                v.push(('H' as u8));
                v.push(('B' as u8));
            },
            Command::IdentifyMeasurement(c) => c.push_body(v),
            Command::IdentifyMeasurementParameter(c) => c.push_body(v),
            Command::ExtendedCommand { .. } => {},
        }
        assert(final(v)@ =~= old(v)@ + self.body());
    }

    /// Encodes the command into its exact wire bytes, `!` included. Fails
    /// rather than truncating when the result would not fit: an extended
    /// command with `BufferOverflow`, any other (one built with an unchecked
    /// measurement index) with `FmtError`.
    pub fn format_into(&self) -> (r: Result<ArrayString<10>, CommandFormatError>)
        ensures
            self.wire().len() <= COMMAND_CAPACITY <==> r is Ok,
            r matches Ok(s) ==> command_buffer_bytes(s) == self.wire(),
            r matches Err(e) ==> e == if self is ExtendedCommand {
                CommandFormatError::BufferOverflow
            } else {
                CommandFormatError::FmtError
            },
    {
        let mut buffer = command_buffer_new();
        let address = self.address();
        let a = address.as_char();
        match self {
            Command::ExtendedCommand { command_body, .. } => {
                let body = command_body.as_str();
                if body.as_bytes().len() > COMMAND_CAPACITY - 2 {
                    return Err(CommandFormatError::BufferOverflow);
                }
                command_buffer_push(&mut buffer, a);
                command_buffer_push_str(&mut buffer, body);
                command_buffer_push(&mut buffer, '!');
                assert(command_buffer_bytes(buffer) =~= self.wire());
                Ok(buffer)
            },
            _ => {
                let mut body: Vec<u8> = Vec::new();
                self.push_standard_body(&mut body);
                if body.len() > COMMAND_CAPACITY - 2 {
                    return Err(CommandFormatError::FmtError);
                }
                command_buffer_push(&mut buffer, a);
                let mut i: usize = 0;
                while i < body.len()
                    invariant
                        i <= body@.len(),
                        body@ == self.body(),
                        body@.len() <= 8,
                        ascii_bytes(body@),
                        command_buffer_bytes(buffer) == seq![byte_of(a)] + body@.subrange(
                            0,
                            i as int,
                        ),
                    decreases body@.len() - i,
                {
                    command_buffer_push(&mut buffer, body[i] as char);
                    i = i + 1;
                    assert(command_buffer_bytes(buffer) =~= seq![byte_of(a)] + body@.subrange(
                        0,
                        i as int,
                    ));
                }
                command_buffer_push(&mut buffer, '!');
                assert(body@.subrange(0, body@.len() as int) =~= body@);
                assert(command_buffer_bytes(buffer) =~= self.wire());
                Ok(buffer)
            },
        }
    }
}

} // verus!
