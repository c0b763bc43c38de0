use sdi12::IdentifyMeasurementParameterCommand as P;
use sdi12::{
    parse_command, Command, CommandFormatError, CommandIndexError, ContinuousIndex, DataIndex,
    IdentifyMeasurementCommand, IdentifyMeasurementParameterCommand, IdentifyParameterIndex,
    MeasurementIndex, Sdi12Addr, Sdi12Error,
};

fn addr(c: char) -> Sdi12Addr {
    Sdi12Addr::new::<()>(c).unwrap()
}

fn fmt(c: Command) -> String {
    c.format_into().unwrap().as_str().to_string()
}

#[test]
fn test_measurement_index_validation() {
    assert!(MeasurementIndex::new(None).is_ok());
    assert!(MeasurementIndex::new(Some(1)).is_ok());
    assert!(MeasurementIndex::new(Some(9)).is_ok());
    assert!(matches!(MeasurementIndex::new(Some(0)), Err(CommandIndexError::MeasurementOutOfRange)));
    assert!(matches!(MeasurementIndex::new(Some(10)), Err(CommandIndexError::MeasurementOutOfRange)));
}

#[test]
fn test_continuous_index_validation() {
    assert!(ContinuousIndex::new(0).is_ok());
    assert!(ContinuousIndex::new(9).is_ok());
    assert!(matches!(ContinuousIndex::new(10), Err(CommandIndexError::ContinuousOutOfRange)));
    assert!(ContinuousIndex::try_from(5).is_ok());
    assert!(ContinuousIndex::try_from(15).is_err());
}

#[test]
fn test_data_index_validation() {
    assert!(DataIndex::new(0).is_ok());
    assert!(DataIndex::new(999).is_ok());
    assert!(matches!(DataIndex::new(1000), Err(CommandIndexError::DataOutOfRange)));
    assert!(DataIndex::try_from(123).is_ok());
    assert!(DataIndex::try_from(1000).is_err());
}

#[test]
fn test_identify_param_index_validation() {
    assert!(IdentifyParameterIndex::new(1).is_ok());
    assert!(IdentifyParameterIndex::new(999).is_ok());
    assert!(matches!(IdentifyParameterIndex::new(0), Err(CommandIndexError::IdentifyParamOutOfRange)));
    assert!(matches!(IdentifyParameterIndex::new(1000), Err(CommandIndexError::IdentifyParamOutOfRange)));
    assert!(IdentifyParameterIndex::try_from(456).is_ok());
    assert!(IdentifyParameterIndex::try_from(1000).is_err());
}

#[test]
fn test_command_construction() {
    let cmd = Command::StartConcurrentMeasurementCRC { address: addr('2'), index: MeasurementIndex::Indexed(3) };
    assert!(matches!(cmd, Command::StartConcurrentMeasurementCRC { .. }));
}

#[test]
fn test_command_formatting_standard() {
    assert_eq!(fmt(Command::AcknowledgeActive { address: addr('0') }), "0!");
    assert_eq!(fmt(Command::SendIdentification { address: addr('1') }), "1I!");
    assert_eq!(fmt(Command::AddressQuery), "?!");
    assert_eq!(fmt(Command::ChangeAddress { address: addr('2'), new_address: addr('3') }), "2A3!");
    assert_eq!(fmt(Command::StartMeasurement { address: addr('4'), index: MeasurementIndex::Base }), "4M!");
    assert_eq!(fmt(Command::StartMeasurement { address: addr('5'), index: MeasurementIndex::Indexed(1) }), "5M1!");
    assert_eq!(fmt(Command::StartMeasurementCRC { address: addr('6'), index: MeasurementIndex::Base }), "6MC!");
    assert_eq!(fmt(Command::StartMeasurementCRC { address: addr('7'), index: MeasurementIndex::Indexed(9) }), "7MC9!");
    assert_eq!(fmt(Command::StartConcurrentMeasurement { address: addr('8'), index: MeasurementIndex::Base }), "8C!");
    assert_eq!(fmt(Command::StartConcurrentMeasurement { address: addr('9'), index: MeasurementIndex::Indexed(2) }), "9C2!");
    assert_eq!(fmt(Command::StartConcurrentMeasurementCRC { address: addr('a'), index: MeasurementIndex::Base }), "aCC!");
    assert_eq!(fmt(Command::StartConcurrentMeasurementCRC { address: addr('b'), index: MeasurementIndex::Indexed(8) }), "bCC8!");
    assert_eq!(fmt(Command::SendData { address: addr('c'), index: DataIndex::new(0).unwrap() }), "cD0!");
    assert_eq!(fmt(Command::SendData { address: addr('d'), index: DataIndex::new(9).unwrap() }), "dD9!");
    assert_eq!(fmt(Command::SendData { address: addr('e'), index: DataIndex::new(10).unwrap() }), "eD10!");
    assert_eq!(fmt(Command::SendData { address: addr('f'), index: DataIndex::new(999).unwrap() }), "fD999!");
    assert_eq!(fmt(Command::SendBinaryData { address: addr('A'), index: DataIndex::new(123).unwrap() }), "ADB123!");
    assert_eq!(fmt(Command::ReadContinuous { address: addr('B'), index: ContinuousIndex::new(0).unwrap() }), "BR0!");
    assert_eq!(fmt(Command::ReadContinuous { address: addr('C'), index: ContinuousIndex::new(9).unwrap() }), "CR9!");
    assert_eq!(fmt(Command::ReadContinuousCRC { address: addr('D'), index: ContinuousIndex::new(5).unwrap() }), "DRC5!");
    assert_eq!(fmt(Command::StartVerification { address: addr('E') }), "EV!");
    assert_eq!(fmt(Command::StartHighVolumeASCII { address: addr('F') }), "FHA!");
    assert_eq!(fmt(Command::StartHighVolumeBinary { address: addr('G') }), "GHB!");
    assert_eq!(fmt(Command::IdentifyMeasurement(IdentifyMeasurementCommand::Measurement { address: addr('H'), index: MeasurementIndex::Base })), "HIM!");
    assert_eq!(fmt(Command::IdentifyMeasurement(IdentifyMeasurementCommand::MeasurementCRC { address: addr('I'), index: MeasurementIndex::Indexed(3) })), "IIMC3!");
    assert_eq!(fmt(Command::IdentifyMeasurement(IdentifyMeasurementCommand::Verification { address: addr('J') })), "JIV!");
    assert_eq!(fmt(Command::IdentifyMeasurement(IdentifyMeasurementCommand::ConcurrentMeasurement { address: addr('K'), index: MeasurementIndex::Indexed(5) })), "KIC5!");
    assert_eq!(fmt(Command::IdentifyMeasurement(IdentifyMeasurementCommand::ConcurrentMeasurementCRC { address: addr('L'), index: MeasurementIndex::Base })), "LICC!");
    assert_eq!(fmt(Command::IdentifyMeasurement(IdentifyMeasurementCommand::HighVolumeASCII { address: addr('M') })), "MIHA!");
    assert_eq!(fmt(Command::IdentifyMeasurement(IdentifyMeasurementCommand::HighVolumeBinary { address: addr('N') })), "NIHB!");
    assert_eq!(fmt(Command::IdentifyMeasurementParameter(IdentifyMeasurementParameterCommand::Measurement { address: addr('O'), m_index: MeasurementIndex::Base, param_index: IdentifyParameterIndex::new(1).unwrap() })), "OIM_001!");
    assert_eq!(fmt(Command::IdentifyMeasurementParameter(IdentifyMeasurementParameterCommand::MeasurementCRC { address: addr('P'), m_index: MeasurementIndex::Indexed(7), param_index: IdentifyParameterIndex::new(12).unwrap() })), "PIMC7_012!");
    assert_eq!(fmt(Command::IdentifyMeasurementParameter(IdentifyMeasurementParameterCommand::Verification { address: addr('Q'), param_index: IdentifyParameterIndex::new(345).unwrap() })), "QIV_345!");
    assert_eq!(fmt(Command::IdentifyMeasurementParameter(IdentifyMeasurementParameterCommand::ConcurrentMeasurement { address: addr('R'), c_index: MeasurementIndex::Indexed(9), param_index: IdentifyParameterIndex::new(999).unwrap() })), "RIC9_999!");
    assert_eq!(fmt(Command::IdentifyMeasurementParameter(IdentifyMeasurementParameterCommand::ConcurrentMeasurementCRC { address: addr('S'), c_index: MeasurementIndex::Base, param_index: IdentifyParameterIndex::new(50).unwrap() })), "SICC_050!");
    assert_eq!(fmt(Command::IdentifyMeasurementParameter(IdentifyMeasurementParameterCommand::ReadContinuous { address: addr('T'), r_index: ContinuousIndex::new(0).unwrap(), param_index: IdentifyParameterIndex::new(1).unwrap() })), "TIR0_001!");
    assert_eq!(fmt(Command::IdentifyMeasurementParameter(IdentifyMeasurementParameterCommand::ReadContinuousCRC { address: addr('U'), r_index: ContinuousIndex::new(8).unwrap(), param_index: IdentifyParameterIndex::new(2).unwrap() })), "UIRC8_002!");
    assert_eq!(fmt(Command::IdentifyMeasurementParameter(IdentifyMeasurementParameterCommand::HighVolumeASCII { address: addr('V'), param_index: IdentifyParameterIndex::new(100).unwrap() })), "VIHA_100!");
    assert_eq!(fmt(Command::IdentifyMeasurementParameter(IdentifyMeasurementParameterCommand::HighVolumeBinary { address: addr('W'), param_index: IdentifyParameterIndex::new(10).unwrap() })), "WIHB_010!");
}

#[test]
fn test_format_extended_command() {
    let cmd_short = Command::ExtendedCommand { address: addr('X'), command_body: "YZ".to_string() };
    let formatted_short = cmd_short.format_into().unwrap();
    assert_eq!(formatted_short.as_str(), "XYZ!");
    let cmd_exact = Command::ExtendedCommand { address: addr('A'), command_body: "BCDEFGHI".to_string() };
    let formatted_exact = cmd_exact.format_into().unwrap();
    assert_eq!(formatted_exact.as_str(), "ABCDEFGHI!");
    let cmd_long = Command::ExtendedCommand { address: addr('A'), command_body: "BCDEFGHIJ".to_string() };
    let formatted_long_result = cmd_long.format_into();
    assert!(matches!(formatted_long_result, Err(CommandFormatError::BufferOverflow)));
}

#[test]
fn test_format_error_from_fmt() {
    let fmt_err = core::fmt::Error;
    let cmd_fmt_err: CommandFormatError = fmt_err.into();
    assert_eq!(cmd_fmt_err, CommandFormatError::FmtError);
}

#[test]
fn format_start_measurement_indexed_three() {
    assert_eq!(fmt(Command::StartMeasurement { address: addr('5'), index: MeasurementIndex::Indexed(3) }), "5M3!");
    assert_eq!(
        fmt(Command::IdentifyMeasurementParameter(IdentifyMeasurementParameterCommand::ConcurrentMeasurement {
            address: addr('0'),
            c_index: MeasurementIndex::Base,
            param_index: IdentifyParameterIndex::new(1).unwrap(),
        })),
        "0IC_001!"
    );
    assert_eq!(
        fmt(Command::IdentifyMeasurementParameter(IdentifyMeasurementParameterCommand::ReadContinuous {
            address: addr('a'),
            r_index: ContinuousIndex::new(2).unwrap(),
            param_index: IdentifyParameterIndex::new(45).unwrap(),
        })),
        "aIR2_045!"
    );
}

#[test]
fn format_unchecked_index_that_overflows_fails() {
    let cmd = Command::IdentifyMeasurementParameter(IdentifyMeasurementParameterCommand::MeasurementCRC {
        address: addr('0'),
        m_index: MeasurementIndex::Indexed(200),
        param_index: IdentifyParameterIndex::new(999).unwrap(),
    });
    assert_eq!(cmd.format_into(), Err(CommandFormatError::FmtError));
}

#[test]
fn extended_command_with_multibyte_text() {
    let cmd = Command::ExtendedCommand { address: addr('1'), command_body: "Xé".to_string() };
    assert_eq!(cmd.format_into().unwrap().as_str(), "1Xé!");
    let long = Command::ExtendedCommand { address: addr('1'), command_body: "ééééé".to_string() };
    assert_eq!(long.format_into(), Err(CommandFormatError::BufferOverflow));
}

#[test]
fn command_addresses_and_crc_requests() {
    assert_eq!(Command::AddressQuery.address().as_char(), '?');
    assert_eq!(Command::SendData { address: addr('7'), index: DataIndex::new(1).unwrap() }.address().as_char(), '7');
    assert!(Command::StartMeasurementCRC { address: addr('0'), index: MeasurementIndex::Base }.requests_crc());
    assert!(!Command::StartMeasurement { address: addr('0'), index: MeasurementIndex::Base }.requests_crc());
}

#[test]
fn every_formatted_command_parses_back() {
    let p = IdentifyParameterIndex::new(7).unwrap();
    let commands = vec![
        Command::AcknowledgeActive { address: addr('0') },
        Command::AddressQuery,
        Command::ChangeAddress { address: addr('2'), new_address: addr('z') },
        Command::StartMeasurementCRC { address: addr('7'), index: MeasurementIndex::Indexed(9) },
        Command::SendBinaryData { address: addr('A'), index: DataIndex::new(123).unwrap() },
        Command::ReadContinuousCRC { address: addr('D'), index: ContinuousIndex::new(5).unwrap() },
        Command::IdentifyMeasurement(IdentifyMeasurementCommand::HighVolumeBinary { address: addr('N') }),
        Command::IdentifyMeasurementParameter(IdentifyMeasurementParameterCommand::ReadContinuousCRC {
            address: addr('U'),
            r_index: ContinuousIndex::new(8).unwrap(),
            param_index: p,
        }),
    ];
    for c in commands {
        let wire = c.format_into().unwrap();
        assert_eq!(parse_command(wire.as_bytes()), Ok(c));
    }
}

#[test]
fn test_parse_basic_commands() {
    assert_eq!(parse_command(b"0!").unwrap(), Command::AcknowledgeActive { address: addr('0') });
    assert_eq!(parse_command(b"1I!").unwrap(), Command::SendIdentification { address: addr('1') });
    assert_eq!(parse_command(b"?!").unwrap(), Command::AddressQuery);
    assert_eq!(parse_command(b"2A3!").unwrap(), Command::ChangeAddress { address: addr('2'), new_address: addr('3') });
    assert_eq!(parse_command(b"4V!").unwrap(), Command::StartVerification { address: addr('4') });
    assert_eq!(parse_command(b"5HA!").unwrap(), Command::StartHighVolumeASCII { address: addr('5') });
    assert_eq!(parse_command(b"6HB!").unwrap(), Command::StartHighVolumeBinary { address: addr('6') });
}

#[test]
fn test_parse_measurement_commands() {
    assert_eq!(parse_command(b"0M!").unwrap(), Command::StartMeasurement { address: addr('0'), index: MeasurementIndex::Base });
    assert_eq!(parse_command(b"1M1!").unwrap(), Command::StartMeasurement { address: addr('1'), index: MeasurementIndex::Indexed(1) });
    assert_eq!(parse_command(b"2M9!").unwrap(), Command::StartMeasurement { address: addr('2'), index: MeasurementIndex::Indexed(9) });
    assert_eq!(parse_command(b"3MC!").unwrap(), Command::StartMeasurementCRC { address: addr('3'), index: MeasurementIndex::Base });
    assert_eq!(parse_command(b"4MC1!").unwrap(), Command::StartMeasurementCRC { address: addr('4'), index: MeasurementIndex::Indexed(1) });
    assert_eq!(parse_command(b"5MC9!").unwrap(), Command::StartMeasurementCRC { address: addr('5'), index: MeasurementIndex::Indexed(9) });
    assert_eq!(parse_command(b"6C!").unwrap(), Command::StartConcurrentMeasurement { address: addr('6'), index: MeasurementIndex::Base });
    assert_eq!(parse_command(b"7C1!").unwrap(), Command::StartConcurrentMeasurement { address: addr('7'), index: MeasurementIndex::Indexed(1) });
    assert_eq!(parse_command(b"8C9!").unwrap(), Command::StartConcurrentMeasurement { address: addr('8'), index: MeasurementIndex::Indexed(9) });
    assert_eq!(parse_command(b"9CC!").unwrap(), Command::StartConcurrentMeasurementCRC { address: addr('9'), index: MeasurementIndex::Base });
    assert_eq!(parse_command(b"aCC1!").unwrap(), Command::StartConcurrentMeasurementCRC { address: addr('a'), index: MeasurementIndex::Indexed(1) });
    assert_eq!(parse_command(b"bCC9!").unwrap(), Command::StartConcurrentMeasurementCRC { address: addr('b'), index: MeasurementIndex::Indexed(9) });
}

#[test]
fn test_parse_data_commands() {
    assert_eq!(parse_command(b"0D0!").unwrap(), Command::SendData { address: addr('0'), index: DataIndex::new(0).unwrap() });
    assert_eq!(parse_command(b"1D9!").unwrap(), Command::SendData { address: addr('1'), index: DataIndex::new(9).unwrap() });
    assert_eq!(parse_command(b"2D10!").unwrap(), Command::SendData { address: addr('2'), index: DataIndex::new(10).unwrap() });
    assert_eq!(parse_command(b"3D999!").unwrap(), Command::SendData { address: addr('3'), index: DataIndex::new(999).unwrap() });
    assert_eq!(parse_command(b"4DB0!").unwrap(), Command::SendBinaryData { address: addr('4'), index: DataIndex::new(0).unwrap() });
    assert_eq!(parse_command(b"5DB123!").unwrap(), Command::SendBinaryData { address: addr('5'), index: DataIndex::new(123).unwrap() });
    assert_eq!(parse_command(b"6DB999!").unwrap(), Command::SendBinaryData { address: addr('6'), index: DataIndex::new(999).unwrap() });
}

#[test]
fn test_parse_continuous_commands() {
    assert_eq!(parse_command(b"0R0!").unwrap(), Command::ReadContinuous { address: addr('0'), index: ContinuousIndex::new(0).unwrap() });
    assert_eq!(parse_command(b"1R9!").unwrap(), Command::ReadContinuous { address: addr('1'), index: ContinuousIndex::new(9).unwrap() });
    assert_eq!(parse_command(b"2RC0!").unwrap(), Command::ReadContinuousCRC { address: addr('2'), index: ContinuousIndex::new(0).unwrap() });
    assert_eq!(parse_command(b"3RC9!").unwrap(), Command::ReadContinuousCRC { address: addr('3'), index: ContinuousIndex::new(9).unwrap() });
}

#[test]
fn test_parse_identify_measurement_commands() {
    assert_eq!(parse_command(b"0IM!").unwrap(), Command::IdentifyMeasurement(IdentifyMeasurementCommand::Measurement { address: addr('0'), index: MeasurementIndex::Base }));
    assert_eq!(parse_command(b"1IM1!").unwrap(), Command::IdentifyMeasurement(IdentifyMeasurementCommand::Measurement { address: addr('1'), index: MeasurementIndex::Indexed(1) }));
    assert_eq!(parse_command(b"2IMC!").unwrap(), Command::IdentifyMeasurement(IdentifyMeasurementCommand::MeasurementCRC { address: addr('2'), index: MeasurementIndex::Base }));
    assert_eq!(parse_command(b"3IMC9!").unwrap(), Command::IdentifyMeasurement(IdentifyMeasurementCommand::MeasurementCRC { address: addr('3'), index: MeasurementIndex::Indexed(9) }));
    assert_eq!(parse_command(b"4IV!").unwrap(), Command::IdentifyMeasurement(IdentifyMeasurementCommand::Verification { address: addr('4') }));
    assert_eq!(parse_command(b"5IC!").unwrap(), Command::IdentifyMeasurement(IdentifyMeasurementCommand::ConcurrentMeasurement { address: addr('5'), index: MeasurementIndex::Base }));
    assert_eq!(parse_command(b"6IC2!").unwrap(), Command::IdentifyMeasurement(IdentifyMeasurementCommand::ConcurrentMeasurement { address: addr('6'), index: MeasurementIndex::Indexed(2) }));
    assert_eq!(parse_command(b"7ICC!").unwrap(), Command::IdentifyMeasurement(IdentifyMeasurementCommand::ConcurrentMeasurementCRC { address: addr('7'), index: MeasurementIndex::Base }));
    assert_eq!(parse_command(b"8ICC8!").unwrap(), Command::IdentifyMeasurement(IdentifyMeasurementCommand::ConcurrentMeasurementCRC { address: addr('8'), index: MeasurementIndex::Indexed(8) }));
    assert_eq!(parse_command(b"9IHA!").unwrap(), Command::IdentifyMeasurement(IdentifyMeasurementCommand::HighVolumeASCII { address: addr('9') }));
    assert_eq!(parse_command(b"aIHB!").unwrap(), Command::IdentifyMeasurement(IdentifyMeasurementCommand::HighVolumeBinary { address: addr('a') }));
}

#[test]
fn test_parse_identify_parameter_commands() {
    let p = |n: u16| IdentifyParameterIndex::new(n).unwrap();
    assert_eq!(parse_command(b"0IM_001!").unwrap(), Command::IdentifyMeasurementParameter(P::Measurement { address: addr('0'), m_index: MeasurementIndex::Base, param_index: p(1) }));
    assert_eq!(parse_command(b"1IM1_010!").unwrap(), Command::IdentifyMeasurementParameter(P::Measurement { address: addr('1'), m_index: MeasurementIndex::Indexed(1), param_index: p(10) }));
    assert_eq!(parse_command(b"2IMC_999!").unwrap(), Command::IdentifyMeasurementParameter(P::MeasurementCRC { address: addr('2'), m_index: MeasurementIndex::Base, param_index: p(999) }));
    assert_eq!(parse_command(b"3IMC9_001!").unwrap(), Command::IdentifyMeasurementParameter(P::MeasurementCRC { address: addr('3'), m_index: MeasurementIndex::Indexed(9), param_index: p(1) }));
    assert_eq!(parse_command(b"4IV_123!").unwrap(), Command::IdentifyMeasurementParameter(P::Verification { address: addr('4'), param_index: p(123) }));
    assert_eq!(parse_command(b"5IC_050!").unwrap(), Command::IdentifyMeasurementParameter(P::ConcurrentMeasurement { address: addr('5'), c_index: MeasurementIndex::Base, param_index: p(50) }));
    assert_eq!(parse_command(b"6IC2_002!").unwrap(), Command::IdentifyMeasurementParameter(P::ConcurrentMeasurement { address: addr('6'), c_index: MeasurementIndex::Indexed(2), param_index: p(2) }));
    assert_eq!(parse_command(b"7ICC_001!").unwrap(), Command::IdentifyMeasurementParameter(P::ConcurrentMeasurementCRC { address: addr('7'), c_index: MeasurementIndex::Base, param_index: p(1) }));
    assert_eq!(parse_command(b"8ICC8_100!").unwrap(), Command::IdentifyMeasurementParameter(P::ConcurrentMeasurementCRC { address: addr('8'), c_index: MeasurementIndex::Indexed(8), param_index: p(100) }));
    assert_eq!(parse_command(b"9IR0_001!").unwrap(), Command::IdentifyMeasurementParameter(P::ReadContinuous { address: addr('9'), r_index: ContinuousIndex::new(0).unwrap(), param_index: p(1) }));
    assert_eq!(parse_command(b"aIR9_999!").unwrap(), Command::IdentifyMeasurementParameter(P::ReadContinuous { address: addr('a'), r_index: ContinuousIndex::new(9).unwrap(), param_index: p(999) }));
    assert_eq!(parse_command(b"bIRC0_002!").unwrap(), Command::IdentifyMeasurementParameter(P::ReadContinuousCRC { address: addr('b'), r_index: ContinuousIndex::new(0).unwrap(), param_index: p(2) }));
    assert_eq!(parse_command(b"cIRC9_010!").unwrap(), Command::IdentifyMeasurementParameter(P::ReadContinuousCRC { address: addr('c'), r_index: ContinuousIndex::new(9).unwrap(), param_index: p(10) }));
    assert_eq!(parse_command(b"dIHA_001!").unwrap(), Command::IdentifyMeasurementParameter(P::HighVolumeASCII { address: addr('d'), param_index: p(1) }));
    assert_eq!(parse_command(b"eIHB_999!").unwrap(), Command::IdentifyMeasurementParameter(P::HighVolumeBinary { address: addr('e'), param_index: p(999) }));
}

#[test]
fn test_parse_extended_commands() {
    assert_eq!(parse_command(b"0XABC!").unwrap(), Command::ExtendedCommand { address: addr('0'), command_body: "XABC".to_string() });
    assert_eq!(parse_command(b"1SOME_CMD_123!").unwrap(), Command::ExtendedCommand { address: addr('1'), command_body: "SOME_CMD_123".to_string() });
}

#[test]
fn test_parse_invalid_formats() {
    assert!(matches!(parse_command(b""), Err(Sdi12Error::InvalidFormat)));
    assert!(matches!(parse_command(b"0"), Err(Sdi12Error::InvalidFormat)));
    // Anything shorter than two bytes is rejected before its address is read.
    assert!(matches!(parse_command(b"!"), Err(Sdi12Error::InvalidFormat)));
    assert!(matches!(parse_command(b"0M"), Err(Sdi12Error::InvalidFormat)));
    assert!(matches!(parse_command(b"?A!"), Err(Sdi12Error::InvalidFormat)));
    assert!(matches!(parse_command(b"$!"), Err(Sdi12Error::InvalidAddress('$'))));
    assert!(matches!(parse_command(b"_M!"), Err(Sdi12Error::InvalidAddress('_'))));
    assert!(matches!(parse_command(b"0Q!"), Err(Sdi12Error::InvalidFormat)));
    assert!(matches!(parse_command(b"1MA!"), Err(Sdi12Error::InvalidFormat)));
    assert!(matches!(parse_command(b"2MCC!"), Err(Sdi12Error::InvalidFormat)));
    assert!(matches!(parse_command(b"3DA!"), Err(Sdi12Error::InvalidFormat)));
    assert!(matches!(parse_command(b"4D!"), Err(Sdi12Error::InvalidFormat)));
    assert!(matches!(parse_command(b"5R!"), Err(Sdi12Error::InvalidFormat)));
    assert!(matches!(parse_command(b"6RA!"), Err(Sdi12Error::InvalidFormat)));
    assert!(matches!(parse_command(b"7RC!"), Err(Sdi12Error::InvalidFormat)));
    assert!(matches!(parse_command(b"0M0!"), Err(Sdi12Error::InvalidCommandIndex(CommandIndexError::MeasurementOutOfRange))));
    assert!(matches!(parse_command(b"1M10!"), Err(Sdi12Error::InvalidCommandIndex(CommandIndexError::MeasurementOutOfRange))));
    assert!(matches!(parse_command(b"2D1000!"), Err(Sdi12Error::InvalidCommandIndex(CommandIndexError::DataOutOfRange))));
    assert!(matches!(parse_command(b"3R10!"), Err(Sdi12Error::InvalidFormat)));
    assert!(matches!(parse_command(b"4RC10!"), Err(Sdi12Error::InvalidFormat)));
    assert!(matches!(parse_command(b"5IM0!"), Err(Sdi12Error::InvalidCommandIndex(CommandIndexError::MeasurementOutOfRange))));
    assert!(matches!(parse_command(b"6IM_000!"), Err(Sdi12Error::InvalidCommandIndex(CommandIndexError::IdentifyParamOutOfRange))));
    // The parameter takes exactly three digits.
    assert!(matches!(parse_command(b"7IM_1000!"), Err(Sdi12Error::InvalidFormat)));
    assert!(matches!(parse_command(b"8IM_12!"), Err(Sdi12Error::InvalidFormat)));
    assert!(matches!(parse_command(b"9IM_ABC!"), Err(Sdi12Error::InvalidFormat)));
    assert!(matches!(parse_command(&[b'0', 0xE2, 0x82, 0xAC, b'!']), Err(Sdi12Error::InvalidFormat)));
}

#[test]
fn test_index_error_mapping() {
    let result = IdentifyParameterIndex::new(1000);
    assert!(result.is_err());
    let index_err = result.err().unwrap();
    let sdi12_err: Sdi12Error<()> = index_err.into();
    assert_eq!(sdi12_err, Sdi12Error::InvalidCommandIndex(CommandIndexError::IdentifyParamOutOfRange));
}

#[test]
fn test_format_error_mapping() {
    let format_err = CommandFormatError::BufferOverflow;
    let sdi12_err: Sdi12Error<()> = format_err.into();
    assert_eq!(sdi12_err, Sdi12Error::CommandFormatFailed(CommandFormatError::BufferOverflow));
}

#[test]
fn parse_large_data_index_is_a_format_error() {
    assert_eq!(parse_command(b"0D99999!"), Err(Sdi12Error::InvalidFormat));
    assert_eq!(parse_command(b"0D007!"), Ok(Command::SendData { address: addr('0'), index: DataIndex::new(7).unwrap() }));
    assert_eq!(parse_command(b"0AZ!"), Ok(Command::ChangeAddress { address: addr('0'), new_address: addr('Z') }));
    assert_eq!(parse_command(b"0A$!"), Err(Sdi12Error::InvalidAddress('$')));
    assert_eq!(parse_command(b"0IR_001!"), Err(Sdi12Error::InvalidFormat));
    assert_eq!(parse_command(b"0IM_0001!"), Err(Sdi12Error::InvalidFormat));
    assert_eq!(parse_command(b"?"), Err(Sdi12Error::InvalidFormat));
}

#[test]
fn error_messages() {
    assert_eq!(CommandIndexError::MeasurementOutOfRange.message(), "Measurement index must be 1-9");
    assert_eq!(CommandIndexError::IdentifyParamOutOfRange.message(), "Identify Parameter index must be 1-999");
    assert_eq!(CommandFormatError::BufferOverflow.message(), "Buffer overflow during formatting");
    assert_eq!(sdi12::Sdi12ParsingError::InvalidDigitCount.message(), "Invalid number of digits (must be 1-7)");
}
