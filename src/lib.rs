//! SDI-12 protocol engine: CRC codec, command model and parser, response
//! decoder, timing table and the recorder's transaction state machine.

pub mod address;
pub mod command;
pub mod crc;
pub mod error;
pub mod frame;
pub mod hal;
pub mod parser;
pub mod recorder;
pub mod response;
pub mod timing;
pub mod types;

pub use address::Sdi12Addr;
pub use command::{
    Command, CommandFormatError, CommandIndexError, ContinuousIndex, DataIndex,
    IdentifyMeasurementCommand, IdentifyMeasurementParameterCommand, IdentifyParameterIndex,
    MeasurementIndex,
};
pub use crc::{
    calculate_crc16, decode_crc_ascii, decode_crc_binary, encode_crc_ascii, encode_crc_binary,
    verify_packet_crc_binary, verify_response_crc_ascii,
};
pub use error::Sdi12Error;
pub use frame::FrameFormat;
pub use hal::Sdi12Timer;
pub use parser::parse_command;
pub use recorder::{IoEvent, IoRequest, Step, Transaction};
pub use response::{
    parse_binary_packet, parse_response, BinaryDataInfo, DataInfo, IdentificationInfo,
    MeasurementTiming, MetadataInfo, Response, ResponseParseError,
};
pub use types::{BinaryDataType, Sdi12ParsingError, Sdi12Value};
