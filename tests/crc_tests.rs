use sdi12::{
    calculate_crc16, decode_crc_ascii, decode_crc_binary, encode_crc_ascii, encode_crc_binary,
    verify_packet_crc_binary, verify_response_crc_ascii, Sdi12Error,
};

fn check_ascii_example(data: &[u8], expected_crc_str: &[u8], name: &str) {
    let expected_crc_val = decode_crc_ascii(expected_crc_str);
    let calculated_crc = calculate_crc16(data);
    assert_eq!(calculated_crc, expected_crc_val, "{}: Calculation mismatch", name);
    let encoded_crc = encode_crc_ascii(calculated_crc);
    assert_eq!(&encoded_crc, expected_crc_str, "{}: Encoding mismatch", name);
    let mut response = data.to_vec();
    response.extend_from_slice(expected_crc_str);
    assert!(verify_response_crc_ascii::<()>(&response).is_ok(), "{}: Verification failed", name);
}

fn check_binary_example(data: &[u8], expected_crc_bytes: &[u8], name: &str) {
    let expected_crc_val = decode_crc_binary(expected_crc_bytes);
    let calculated_crc = calculate_crc16(data);
    assert_eq!(calculated_crc, expected_crc_val, "{}: Calculation mismatch", name);
    let encoded_crc = encode_crc_binary(calculated_crc);
    assert_eq!(&encoded_crc, expected_crc_bytes, "{}: Encoding mismatch", name);
    let mut packet = data.to_vec();
    packet.extend_from_slice(expected_crc_bytes);
    assert!(verify_packet_crc_binary::<()>(&packet).is_ok(), "{}: Verification failed", name);
}

#[test]
fn test_spec_example_a() {
    check_ascii_example(b"0+3.14", b"OqZ", "Example A");
}

#[test]
fn test_spec_example_b() {
    check_ascii_example(b"0+3.14+2.718+1.414", b"Ipz", "Example B");
}

#[test]
fn test_spec_example_c_d0() {
    check_ascii_example(b"0+1.11+2.22+3.33+4.44+5.55+6.66", b"I]q", "Example C D0");
}

#[test]
fn test_spec_example_c_d1() {
    check_ascii_example(b"0+7.77+8.88+9.99", b"IvW", "Example C D1");
}

#[test]
fn test_spec_example_d() {
    check_ascii_example(b"0+3.14+2.718", b"IWO", "Example D");
}

#[test]
fn test_spec_example_e_d0() {
    check_ascii_example(b"0+3.14", b"OqZ", "Example E D0");
}

#[test]
fn test_spec_example_e_d1() {
    check_ascii_example(b"0+2.718", b"Gbc", "Example E D1");
}

#[test]
fn test_spec_example_e_d2() {
    check_ascii_example(b"0+1.414", b"GtW", "Example E D2");
}

#[test]
fn test_spec_example_f_sensor1() {
    check_ascii_example(b"1+1.23+2.34+345+4.4678", b"KoO", "Example F S1");
}

#[test]
fn test_spec_example_f_sensor0() {
    check_ascii_example(
        b"0+1.234-4.56+12354-0.00045+2.223+145.5+7.7003+4328.8+9+10+11.433+12",
        b"Ba]",
        "Example F S0",
    );
}

#[test]
fn test_spec_binary_example_db0() {
    check_binary_example(&[0x31, 0x04, 0x00, 0x03, 0xFF, 0xFF, 0x01, 0x00], &[0xC2, 0xAC], "Binary Ex DB0");
}

#[test]
fn test_spec_binary_example_db1() {
    check_binary_example(
        &[0x31, 0x08, 0x00, 0x09, 0xC3, 0xF5, 0x48, 0x40, 0x00, 0x00, 0x80, 0x3F],
        &[0x3B, 0x6E],
        "Binary Ex DB1",
    );
}

#[test]
fn test_spec_binary_example_db2_empty() {
    check_binary_example(&[0x31, 0x00, 0x00, 0x00], &[0x0E, 0xFC], "Binary Ex DB2");
}

#[test]
fn test_crc_ascii_encoding_decoding_roundtrip_extra() {
    let test_cases = [0x0000, 0xFFFF, 0x1234, 0xABCD];
    for crc_val in test_cases {
        let encoded = encode_crc_ascii(crc_val);
        let decoded = decode_crc_ascii(&encoded);
        assert_eq!(decoded, crc_val, "ASCII Encode/Decode roundtrip failed for {:#06x}", crc_val);
    }
}

#[test]
fn test_binary_crc_encoding_decoding_roundtrip_extra() {
    let test_cases = [0x0000, 0xFFFF, 0x1234, 0xABCD];
    for crc_val in test_cases {
        let encoded = encode_crc_binary(crc_val);
        let decoded = decode_crc_binary(&encoded);
        assert_eq!(decoded, crc_val, "Binary Encode/Decode roundtrip failed for {:#06x}", crc_val);
    }
}

#[test]
fn test_verify_ascii_crc_invalid_cases() {
    let result1 = verify_response_crc_ascii::<()>(b"0+3.14OqX");
    assert!(matches!(result1, Err(Sdi12Error::CrcMismatch { .. })));
    let result2 = verify_response_crc_ascii::<()>(b"0+3.15OqZ");
    assert!(matches!(result2, Err(Sdi12Error::CrcMismatch { .. })));
    assert!(matches!(verify_response_crc_ascii::<()>(b"0+"), Err(Sdi12Error::InvalidFormat)));
    assert!(matches!(verify_response_crc_ascii::<()>(b"Oq"), Err(Sdi12Error::InvalidFormat)));
    assert!(matches!(verify_response_crc_ascii::<()>(b""), Err(Sdi12Error::InvalidFormat)));
}

#[test]
fn test_verify_binary_crc_invalid_cases() {
    let data = &[0x31, 0x04, 0x00, 0x03, 0xFF, 0xFF, 0x01, 0x00];
    let mut packet_bad_crc = data.to_vec();
    packet_bad_crc.extend_from_slice(&[0xC3, 0xAC]);
    assert!(matches!(verify_packet_crc_binary::<()>(&packet_bad_crc), Err(Sdi12Error::CrcMismatch { .. })));
    let data_bad = &[0x31, 0x04, 0x00, 0x03, 0xFE, 0xFF, 0x01, 0x00];
    let mut packet_bad_data = data_bad.to_vec();
    let correct_crc = calculate_crc16(data);
    packet_bad_data.extend_from_slice(&encode_crc_binary(correct_crc));
    assert!(matches!(verify_packet_crc_binary::<()>(&packet_bad_data), Err(Sdi12Error::CrcMismatch { .. })));
    let packet_short_crc = &[0x31, 0x04, 0x00, 0x03, 0xFF, 0xFF, 0x01, 0x00, 0xC2];
    assert!(matches!(verify_packet_crc_binary::<()>(packet_short_crc), Err(Sdi12Error::CrcMismatch { .. })));
    assert!(matches!(verify_packet_crc_binary::<()>(&[0x31]), Err(Sdi12Error::InvalidFormat)));
    assert!(matches!(verify_packet_crc_binary::<()>(b""), Err(Sdi12Error::InvalidFormat)));
}

#[test]
fn crc_round_trip_of_checksums() {
    for span in [&b""[..], b"0+3.14", b"123456789", &[0xFF, 0x00, 0x80]] {
        let c = calculate_crc16(span);
        assert_eq!(decode_crc_ascii(&encode_crc_ascii(c)), c);
        assert_eq!(decode_crc_binary(&encode_crc_binary(c)), c);
    }
}

#[test]
fn crc_known_values() {
    assert_eq!(calculate_crc16(b"123456789"), 0xBB3D);
    assert_eq!(calculate_crc16(b""), 0x0000);
    assert_eq!(encode_crc_ascii(0xC0C1), *b"LCA");
    assert_eq!(encode_crc_binary(0xACC2), [0xC2, 0xAC]);
    assert_eq!(decode_crc_ascii(b"\xFF\xFF\xFF"), 0xFFFF);
}

#[test]
fn crc_mismatch_reports_both_values() {
    let expected = decode_crc_ascii(b"OqX");
    let calculated = calculate_crc16(b"0+3.14");
    assert_eq!(
        verify_response_crc_ascii::<()>(b"0+3.14OqX"),
        Err(Sdi12Error::CrcMismatch { expected, calculated })
    );
}
