//! CRC-16 codec: the checksum and SDI-12's two wire encodings of it.

use vstd::prelude::*;

use vstd::slice::slice_subrange;

use crate::error::Sdi12Error;

verus! {

/// The CRC-16/ARC checksum of `data` (polynomial 0x8005, initial value 0,
/// reflected input and output, no final XOR).
pub uninterp spec fn crc16_arc(data: Seq<u8>) -> u16;

/// Relies on `crc::Crc::<u16>::checksum` with the catalogue's `CRC_16_ARC`
/// parameters: the checksum depends on the bytes alone.
#[verifier::external_body]
fn crc16_arc_checksum(data: &[u8]) -> (r: u16)
    ensures
        r == crc16_arc(data@),
{
    crc::Crc::<u16>::new(&crc::CRC_16_ARC).checksum(data)
}

/// The three printable characters that carry `v` in an ASCII response: bits
/// 12-15, 6-11 and 0-5 of `v`, each ORed with 0x40.
pub open spec fn crc_ascii_bytes(v: u16) -> Seq<u8> {
    seq![
        (0x40u8 | (((v >> 12u16) & 0x3Fu16) as u8)),
        (0x40u8 | (((v >> 6u16) & 0x3Fu16) as u8)),
        (0x40u8 | ((v & 0x3Fu16) as u8)),
    ]
}

/// The value carried by three ASCII CRC characters: their low six bits,
/// most significant first.
pub open spec fn crc_ascii_value(b0: u8, b1: u8, b2: u8) -> u16 {
    (((b0 & 0x3Fu8) as u16) << 12u16) | (((b1 & 0x3Fu8) as u16) << 6u16) | ((b2 & 0x3Fu8) as u16)
}

/// The value carried by two little-endian bytes.
pub open spec fn le_u16(lo: u8, hi: u8) -> u16 {
    (lo as u16) | ((hi as u16) << 8u16)
}

/// True of a byte whose top two bits are `01`, the range of ASCII CRC
/// characters.
pub open spec fn crc_ascii_char(b: u8) -> bool {
    b & 0xC0u8 == 0x40u8
}

/// Calculates the SDI-12 CRC-16 of `data`.
pub fn calculate_crc16(data: &[u8]) -> (r: u16)
    ensures
        r == crc16_arc(data@),
{
    crc16_arc_checksum(data)
}

/// Encodes a CRC as the three characters of an ASCII response.
pub fn encode_crc_ascii(crc_value: u16) -> (r: [u8; 3])
    ensures
        r@ == crc_ascii_bytes(crc_value),
{
    let char1 = 0x40u8 | (((crc_value >> 12u16) & 0x3Fu16) as u8);
    let char2 = 0x40u8 | (((crc_value >> 6u16) & 0x3Fu16) as u8);
    let char3 = 0x40u8 | ((crc_value & 0x3Fu16) as u8);
    let r = [char1, char2, char3];
    assert(r@ =~= crc_ascii_bytes(crc_value));
    r
}

/// Decodes three ASCII CRC characters; only the low six bits of each count.
pub fn decode_crc_ascii(crc_chars: &[u8]) -> (r: u16)
    requires
        crc_chars@.len() == 3,
    ensures
        r == crc_ascii_value(crc_chars@[0], crc_chars@[1], crc_chars@[2]),
{
    let byte1 = (crc_chars[0] & 0x3Fu8) as u16;
    let byte2 = (crc_chars[1] & 0x3Fu8) as u16;
    let byte3 = (crc_chars[2] & 0x3Fu8) as u16;
    (byte1 << 12u16) | (byte2 << 6u16) | byte3
}

/// Encodes a CRC as two bytes, least significant first.
pub fn encode_crc_binary(crc_value: u16) -> (r: [u8; 2])
    ensures
        r@ == seq![(crc_value & 0xFFu16) as u8, (crc_value >> 8u16) as u8],
{
    let r = [(crc_value & 0xFFu16) as u8, (crc_value >> 8u16) as u8];
    assert(r@ =~= seq![(crc_value & 0xFFu16) as u8, (crc_value >> 8u16) as u8]);
    r
}

/// Decodes two bytes, least significant first.
pub fn decode_crc_binary(crc_bytes: &[u8]) -> (r: u16)
    requires
        crc_bytes@.len() == 2,
    ensures
        r == le_u16(crc_bytes@[0], crc_bytes@[1]),
{
    (crc_bytes[0] as u16) | ((crc_bytes[1] as u16) << 8u16)
}

/// Checks a buffer whose last three bytes are an ASCII CRC of the bytes
/// before them.
pub fn verify_response_crc_ascii<E>(response_with_crc: &[u8]) -> (r: Result<(), Sdi12Error<E>>)
    ensures
        ({
            let b = response_with_crc@;
            let n = b.len() as int;
            if n < 3 {
                r == Err::<(), Sdi12Error<E>>(Sdi12Error::InvalidFormat)
            } else {
                let calculated = crc16_arc(b.subrange(0, n - 3));
                let received = crc_ascii_value(b[n - 3], b[n - 2], b[n - 1]);
                if calculated == received {
                    r is Ok
                } else {
                    r == Err::<(), Sdi12Error<E>>(
                        Sdi12Error::CrcMismatch { expected: received, calculated },
                    )
                }
            }
        }),
{
    if response_with_crc.len() < 3 {
        return Err(Sdi12Error::InvalidFormat);
    }
    let data_len = response_with_crc.len() - 3;
    let data_part = slice_prefix(response_with_crc, data_len);
    let calculated_crc = calculate_crc16(data_part);
    let received_crc = crc_ascii_value_at(response_with_crc, data_len);
    if calculated_crc == received_crc {
        Ok(())
    } else {
        Err(Sdi12Error::CrcMismatch { expected: received_crc, calculated: calculated_crc })
    }
}

/// Checks a binary packet whose last two bytes are the little-endian CRC of
/// the bytes before them.
pub fn verify_packet_crc_binary<E>(packet_with_crc: &[u8]) -> (r: Result<(), Sdi12Error<E>>)
    ensures
        ({
            let b = packet_with_crc@;
            let n = b.len() as int;
            if n < 2 {
                r == Err::<(), Sdi12Error<E>>(Sdi12Error::InvalidFormat)
            } else {
                let calculated = crc16_arc(b.subrange(0, n - 2));
                let received = le_u16(b[n - 2], b[n - 1]);
                if calculated == received {
                    r is Ok
                } else {
                    r == Err::<(), Sdi12Error<E>>(
                        Sdi12Error::CrcMismatch { expected: received, calculated },
                    )
                }
            }
        }),
{
    if packet_with_crc.len() < 2 {
        return Err(Sdi12Error::InvalidFormat);
    }
    let data_len = packet_with_crc.len() - 2;
    let data_part = slice_prefix(packet_with_crc, data_len);
    let calculated_crc = calculate_crc16(data_part);
    let received_crc = (packet_with_crc[data_len] as u16) | ((packet_with_crc[data_len + 1] as u16)
        << 8u16);
    if calculated_crc == received_crc {
        Ok(())
    } else {
        Err(Sdi12Error::CrcMismatch { expected: received_crc, calculated: calculated_crc })
    }
}

/// The ASCII CRC value held by the three bytes that start at `at`.
pub(crate) fn crc_ascii_value_at(b: &[u8], at: usize) -> (r: u16)
    requires
        at + 3 <= b@.len(),
    ensures
        r == crc_ascii_value(b@[at as int], b@[at + 1], b@[at + 2]),
{
    let byte1 = (b[at] & 0x3Fu8) as u16;
    let byte2 = (b[at + 1] & 0x3Fu8) as u16;
    let byte3 = (b[at + 2] & 0x3Fu8) as u16;
    (byte1 << 12u16) | (byte2 << 6u16) | byte3
}

/// The first `n` bytes of `b`.
pub(crate) fn slice_prefix(b: &[u8], n: usize) -> (r: &[u8])
    requires
        n <= b@.len(),
    ensures
        r@ == b@.subrange(0, n as int),
{
    slice_subrange(b, 0, n)
}

/// Decoding the ASCII encoding of any CRC value gives the value back.
pub proof fn lemma_crc_ascii_round_trip_value(v: u16)
    ensures
        crc_ascii_value(crc_ascii_bytes(v)[0], crc_ascii_bytes(v)[1], crc_ascii_bytes(v)[2]) == v,
{
    let b0 = 0x40u8 | (((v >> 12u16) & 0x3Fu16) as u8);
    let b1 = 0x40u8 | (((v >> 6u16) & 0x3Fu16) as u8);
    let b2 = 0x40u8 | ((v & 0x3Fu16) as u8);
    assert((((b0 & 0x3Fu8) as u16) << 12u16) | (((b1 & 0x3Fu8) as u16) << 6u16) | ((b2
        & 0x3Fu8) as u16) == v) by (bit_vector)
        requires
            b0 == 0x40u8 | (((v >> 12u16) & 0x3Fu16) as u8),
            b1 == 0x40u8 | (((v >> 6u16) & 0x3Fu16) as u8),
            b2 == 0x40u8 | ((v & 0x3Fu16) as u8),
    ;
}

/// For every byte span, decoding the ASCII encoding of its checksum gives
/// the checksum back, and so does decoding its binary encoding.
pub proof fn lemma_crc_round_trip(span: Seq<u8>)
    ensures
        ({
            let c = crc16_arc(span);
            let a = crc_ascii_bytes(c);
            &&& crc_ascii_value(a[0], a[1], a[2]) == c
            &&& le_u16((c & 0xFFu16) as u8, (c >> 8u16) as u8) == c
        }),
{
    let c = crc16_arc(span);
    lemma_crc_ascii_round_trip_value(c);
    assert(((((c & 0xFFu16) as u8) as u16) | ((((c >> 8u16) as u8) as u16) << 8u16)) == c)
        by (bit_vector);
}

} // verus!
