//! Responses and the response decoder.

use vstd::prelude::*;
use vstd::slice::{slice_subrange, slice_to_vec};
use vstd::utf8::{decode_utf8, valid_utf8};

use crate::address::{addr_value_ok, Sdi12Addr};
use crate::crc::{
    calculate_crc16, crc16_arc, crc_ascii_char, crc_ascii_value, crc_ascii_value_at, le_u16,
    slice_prefix,
};
use crate::parser::{
    all_digits, are_digits, byte_is_digit, digits_value, digits_value_capped, index_of, is_digit,
    lemma_digits_bound, lemma_digits_value_push, pow10,
};
use crate::types::{
    binary_type_of, parse_value, parse_value_spec, BinaryDataType, Sdi12ParsingError, Sdi12Value,
};

verus! {

/// Timing and count returned by the measurement commands (`atttn`).
#[derive(Debug, Copy, Clone, PartialEq, Eq, Structural)]
pub struct MeasurementTiming {
    pub address: Sdi12Addr,
    /// Seconds until the data is ready, 0-999.
    pub time_seconds: u16,
    /// Number of values that will be returned, 0-999.
    pub values_count: u16,
}

/// Answer to the send-identification command.
#[derive(Debug, Clone, PartialEq, Eq)]
pub struct IdentificationInfo {
    pub address: Sdi12Addr,
    /// SDI-12 compatibility level, e.g. 14 for version 1.4.
    pub sdi_version: u8,
    /// Vendor, eight characters.
    pub vendor: String,
    /// Sensor model, six characters.
    pub model: String,
    /// Sensor version, three characters.
    pub version: String,
    /// Up to thirteen further characters.
    pub optional: Option<String>,
}

/// Values returned by the send-data and read-continuous commands.
#[derive(Debug, Clone, PartialEq, Eq)]
pub struct DataInfo {
    pub address: Sdi12Addr,
    pub values: Vec<Sdi12Value>,
    /// The CRC the response carried, if any.
    pub crc: Option<u16>,
}

/// A high-volume binary packet.
#[derive(Debug, Clone, PartialEq, Eq)]
pub struct BinaryDataInfo {
    pub address: Sdi12Addr,
    /// Payload size in bytes, from the packet header.
    pub packet_size: u16,
    pub data_type: BinaryDataType,
    pub payload: Vec<u8>,
    /// The CRC at the end of the packet.
    pub crc: u16,
}

/// Answer to an identify-parameter command: `a,field1,field2;`.
#[derive(Debug, Clone, PartialEq, Eq)]
pub struct MetadataInfo {
    pub address: Sdi12Addr,
    pub fields: Vec<String>,
    /// The CRC the response carried, if any.
    pub crc: Option<u16>,
}

/// A decoded sensor response.
#[derive(Debug, Clone, PartialEq, Eq)]
pub enum Response {
    Acknowledge { address: Sdi12Addr },
    ServiceRequest { address: Sdi12Addr },
    Identification(IdentificationInfo),
    /// The newly confirmed address.
    Address { address: Sdi12Addr },
    MeasurementTiming(MeasurementTiming),
    Data(DataInfo),
    BinaryData(BinaryDataInfo),
    Metadata(MetadataInfo),
    Aborted { address: Sdi12Addr, crc: Option<u16> },
}

/// Why a response could not be decoded.
#[derive(Debug, Copy, Clone, PartialEq, Eq, Structural)]
pub enum ResponseParseError {
    EmptyInput,
    /// The buffer does not end with `<CR><LF>`.
    MissingCrLf,
    /// Too short for the expected format.
    TooShort,
    /// The address byte is not a sensor address.
    InvalidAddressChar,
    UnexpectedCharacter,
    /// A data value did not parse.
    ValueError(Sdi12ParsingError),
    NumericError,
    /// The bytes looked like a CRC but did not match.
    CrcMismatch,
    InvalidVersionFormat,
    InvalidIdentificationLength,
    /// The binary packet's size field disagrees with its payload.
    InconsistentBinaryPacketSize,
    /// The binary packet's type code is above 10.
    InvalidBinaryDataType,
    FeatureNotEnabled,
    /// None of the response shapes.
    InvalidFormat,
    /// A text field is not UTF-8.
    InvalidUtf8,
}

impl From<Sdi12ParsingError> for ResponseParseError {
    fn from(e: Sdi12ParsingError) -> (r: Self)
        ensures
            r == ResponseParseError::ValueError(e),
    {
        ResponseParseError::ValueError(e)
    }
}

impl vstd::std_specs::convert::FromSpecImpl<Sdi12ParsingError> for ResponseParseError {
    open spec fn obeys_from_spec() -> bool {
        true
    }

    open spec fn from_spec(v: Sdi12ParsingError) -> Self {
        ResponseParseError::ValueError(v)
    }
}

// ---- Specification ----

pub open spec fn is_sign(b: u8) -> bool {
    b == ('+' as u8) || b == ('-' as u8)
}

/// Splits a response buffer into its address, the payload between address
/// and CRC, and the CRC if the last three payload bytes look like one.
pub open spec fn frame(b: Seq<u8>) -> Result<(Sdi12Addr, Seq<u8>, Option<u16>), ResponseParseError> {
    let n = b.len();
    if n < 2 || b[n - 2] != ('\r' as u8) || b[n - 1] != ('\n' as u8) {
        Err(ResponseParseError::MissingCrLf)
    } else {
        let p = b.subrange(0, n - 2);
        let m = p.len();
        if m == 0 {
            Err(ResponseParseError::TooShort)
        } else if p[0] == ('?' as u8) || !addr_value_ok(p[0] as char) {
            Err(ResponseParseError::InvalidAddressChar)
        } else {
            let a = Sdi12Addr::spec_from_char(p[0] as char);
            if m >= 4 && crc_ascii_char(p[m - 3]) && crc_ascii_char(p[m - 2]) && crc_ascii_char(
                p[m - 1],
            ) {
                let v = crc_ascii_value(p[m - 3], p[m - 2], p[m - 1]);
                if crc16_arc(p.subrange(0, m - 3)) == v {
                    Ok((a, p.subrange(1, m - 3), Some(v)))
                } else {
                    Err(ResponseParseError::CrcMismatch)
                }
            } else {
                Ok((a, p.subrange(1, m as int), None))
            }
        }
    }
}

/// `atttn[nn]`: four to six digits.
pub open spec fn timing_shape(rest: Seq<u8>) -> bool {
    4 <= rest.len() <= 6 && all_digits(rest)
}

/// `ll` + vendor (8) + model (6) + version (3) + optional text.
pub open spec fn identification_shape(rest: Seq<u8>) -> bool {
    rest.len() >= 19 && is_digit(rest[0]) && is_digit(rest[1])
}

/// `,fields;`.
pub open spec fn metadata_shape(rest: Seq<u8>) -> bool {
    rest.len() >= 1 && rest[0] == (',' as u8) && rest.last() == (';' as u8)
}

/// `+v-v...`: values, each led by its sign.
pub open spec fn data_shape(rest: Seq<u8>) -> bool {
    rest.len() >= 1 && is_sign(rest[0])
}

/// Position of the first sign in `s`, or `s.len()`.
pub open spec fn sign_index(s: Seq<u8>) -> int
    decreases s.len(),
{
    if s.len() == 0 {
        0
    } else if is_sign(s[0]) {
        0
    } else {
        1 + sign_index(s.subrange(1, s.len() as int))
    }
}

/// The values of `+v-v...`, split before each sign after the first byte; the
/// first value that does not parse decides the error.
pub open spec fn data_values(s: Seq<u8>) -> Result<Seq<Sdi12Value>, Sdi12ParsingError>
    decreases s.len(),
{
    if s.len() == 0 {
        Ok(seq![])
    } else {
        let k = 1 + sign_index(s.subrange(1, s.len() as int));
        match parse_value_spec(s.subrange(0, k)) {
            Err(e) => Err(e),
            Ok(v) => if k >= s.len() || k < 1 {
                Ok(seq![v])
            } else {
                match data_values(s.subrange(k, s.len() as int)) {
                    Err(e) => Err(e),
                    Ok(vs) => Ok(seq![v] + vs),
                }
            },
        }
    }
}

/// The comma-separated pieces of `s`.
pub open spec fn comma_pieces(s: Seq<u8>) -> Seq<Seq<u8>>
    decreases s.len(),
{
    let k = index_of(s, (',' as u8));
    if k >= s.len() || k < 0 {
        seq![s]
    } else {
        seq![s.subrange(0, k)] + comma_pieces(s.subrange(k + 1, s.len() as int))
    }
}

/// `fields` holds the UTF-8 text of the pieces, all valid.
pub open spec fn fields_match(fields: Seq<String>, pieces: Seq<Seq<u8>>) -> bool {
    fields.len() == pieces.len() && forall|i: int|
        0 <= i < pieces.len() ==> valid_utf8(#[trigger] pieces[i]) && fields[i]@ == decode_utf8(
            pieces[i],
        )
}

pub open spec fn all_valid_utf8(pieces: Seq<Seq<u8>>) -> bool {
    forall|i: int| 0 <= i < pieces.len() ==> valid_utf8(#[trigger] pieces[i])
}

/// `s` holds the UTF-8 text `b`.
pub open spec fn text_is(s: String, b: Seq<u8>) -> bool {
    valid_utf8(b) && s@ == decode_utf8(b)
}

/// The identification pieces: vendor, model, version and optional text.
pub open spec fn id_optional(rest: Seq<u8>) -> Seq<u8> {
    rest.subrange(19, if rest.len() < 32 {
        rest.len() as int
    } else {
        32
    })
}

/// `r` is the decoding of the payload `rest` after address `a`, with CRC
/// `crc`.
pub open spec fn payload_decodes_to(
    r: Result<Response, ResponseParseError>,
    a: Sdi12Addr,
    rest: Seq<u8>,
    crc: Option<u16>,
) -> bool {
    if rest.len() == 1 && crc is None {
        if addr_value_ok(rest[0] as char) {
            r == Ok::<Response, ResponseParseError>(
                Response::Address { address: Sdi12Addr::spec_from_char(rest[0] as char) },
            )
        } else {
            r == Err::<Response, ResponseParseError>(ResponseParseError::InvalidAddressChar)
        }
    } else if rest.len() == 0 {
        match crc {
            Some(v) => r == Ok::<Response, ResponseParseError>(
                Response::Aborted { address: a, crc: Some(v) },
            ),
            None => r == Ok::<Response, ResponseParseError>(
                if ('0' <= a@ && a@ <= '9') {
                    Response::Acknowledge { address: a }
                } else {
                    Response::Address { address: a }
                },
            ),
        }
    } else if timing_shape(rest) {
        r == Ok::<Response, ResponseParseError>(
            Response::MeasurementTiming(
                MeasurementTiming {
                    address: a,
                    time_seconds: digits_value(rest.subrange(0, 3)) as u16,
                    values_count: digits_value(rest.subrange(3, rest.len() as int)) as u16,
                },
            ),
        )
    } else if identification_shape(rest) {
        let vendor = rest.subrange(2, 10);
        let model = rest.subrange(10, 16);
        let version = rest.subrange(16, 19);
        let opt = id_optional(rest);
        if !valid_utf8(vendor) || !valid_utf8(model) || !valid_utf8(version) || (rest.len() > 19
            && !valid_utf8(opt)) {
            r == Err::<Response, ResponseParseError>(ResponseParseError::InvalidUtf8)
        } else {
            r matches Ok(Response::Identification(info)) && info.address == a && info.sdi_version
                == digits_value(rest.subrange(0, 2)) && text_is(info.vendor, vendor) && text_is(
                info.model,
                model,
            ) && text_is(info.version, version) && (if rest.len() > 19 {
                info.optional matches Some(o) && text_is(o, opt)
            } else {
                info.optional is None
            })
        }
    } else if metadata_shape(rest) {
        let pieces = comma_pieces(rest.subrange(1, rest.len() - 1));
        if all_valid_utf8(pieces) {
            r matches Ok(Response::Metadata(info)) && info.address == a && info.crc == crc
                && fields_match(info.fields@, pieces)
        } else {
            r == Err::<Response, ResponseParseError>(ResponseParseError::InvalidUtf8)
        }
    } else if data_shape(rest) {
        match data_values(rest) {
            Ok(vs) => r matches Ok(Response::Data(info)) && info.address == a && info.crc == crc
                && info.values@ == vs,
            Err(e) => r == Err::<Response, ResponseParseError>(ResponseParseError::ValueError(e)),
        }
    } else {
        r == Err::<Response, ResponseParseError>(ResponseParseError::InvalidFormat)
    }
}

/// `r` is the decoding of the response buffer `b`.
pub open spec fn decodes_to(r: Result<Response, ResponseParseError>, b: Seq<u8>) -> bool {
    match frame(b) {
        Err(e) => r == Err::<Response, ResponseParseError>(e),
        Ok((a, rest, crc)) => payload_decodes_to(r, a, rest, crc),
    }
}

/// The variant of a response, as a number.
pub open spec fn response_kind(r: Response) -> nat {
    match r {
        Response::Acknowledge { .. } => 0,
        Response::ServiceRequest { .. } => 1,
        Response::Identification(_) => 2,
        Response::Address { .. } => 3,
        Response::MeasurementTiming(_) => 4,
        Response::Data(_) => 5,
        Response::BinaryData(_) => 6,
        Response::Metadata(_) => 7,
        Response::Aborted { .. } => 8,
    }
}

/// For any buffer ending in `<CR><LF>`, every result the decoder may give is
/// either the same error or a response of the same variant: one buffer never
/// has two interpretations.
pub proof fn lemma_decoding_unique(
    b: Seq<u8>,
    r1: Result<Response, ResponseParseError>,
    r2: Result<Response, ResponseParseError>,
)
    requires
        b.len() >= 2,
        b[b.len() - 2] == ('\r' as u8),
        b[b.len() - 1] == ('\n' as u8),
        decodes_to(r1, b),
        decodes_to(r2, b),
    ensures
        r1 is Err <==> r2 is Err,
        r1 is Err ==> r1 == r2,
        r1 matches Ok(x1) ==> (r2 matches Ok(x2) && response_kind(x1) == response_kind(x2)),
{
    match frame(b) {
        Err(e) => {},
        Ok((a, rest, crc)) => {
            lemma_shapes_exclusive(rest);
        },
    }
}

/// Once the CRC is stripped, timing, identification, metadata and data are
/// told apart by their leading bytes and lengths: no payload has two shapes,
/// so a response decodes in one way only.
pub proof fn lemma_shapes_exclusive(rest: Seq<u8>)
    ensures
        timing_shape(rest) ==> !identification_shape(rest) && !metadata_shape(rest) && !data_shape(
            rest,
        ),
        identification_shape(rest) ==> !metadata_shape(rest) && !data_shape(rest),
        metadata_shape(rest) ==> !data_shape(rest),
{
    if timing_shape(rest) {
        assert(is_digit(rest[0]));
    }
}


// ---- Decoding ----

/// Relies on `core::str::from_utf8`: it succeeds exactly on valid UTF-8 and
/// then holds the characters the bytes encode.
#[verifier::external_body]
fn str_from_utf8(b: &[u8]) -> (r: Option<&str>)
    ensures
        r is Some <==> valid_utf8(b@),
        r matches Some(s) ==> s@ == decode_utf8(b@),
{
    core::str::from_utf8(b).ok()
}

/// The UTF-8 text of `b` as a `String`, if it is valid.
fn text_of(b: &[u8]) -> (r: Option<String>)
    ensures
        r is Some <==> valid_utf8(b@),
        r matches Some(s) ==> text_is(s, b@),
{
    match str_from_utf8(b) {
        Some(s) => Some(s.to_owned()),
        None => None,
    }
}

/// Strips a trailing `<CR><LF>`; `None` when there is none.
pub fn trim_cr_lf(buffer: &[u8]) -> (r: Option<&[u8]>)
    ensures
        r is Some <==> (buffer@.len() >= 2 && buffer@[buffer@.len() - 2] == ('\r' as u8)
            && buffer@[buffer@.len() - 1] == ('\n' as u8)),
        r matches Some(t) ==> t@ == buffer@.subrange(0, buffer@.len() - 2),
{
    let n = buffer.len();
    if n >= 2 && buffer[n - 2] == '\r' as u8 && buffer[n - 1] == '\n' as u8 {
        Some(slice_subrange(buffer, 0, n - 2))
    } else {
        None
    }
}

/// `sign_index` is the first position of a sign.
pub proof fn lemma_sign_index(s: Seq<u8>, k: int)
    requires
        0 <= k <= s.len(),
        forall|j: int| 0 <= j < k ==> !is_sign(s[j]),
        k < s.len() ==> is_sign(s[k]),
    ensures
        sign_index(s) == k,
    decreases s.len(),
{
    if s.len() > 0 && !is_sign(s[0]) {
        let t = s.subrange(1, s.len() as int);
        assert forall|j: int| 0 <= j < k - 1 implies !is_sign(t[j]) by {
            assert(t[j] == s[j + 1]);
        }
        lemma_sign_index(t, k - 1);
    }
}

pub open spec fn prepend(vs: Seq<Sdi12Value>, r: Result<Seq<Sdi12Value>, Sdi12ParsingError>) -> Result<
    Seq<Sdi12Value>,
    Sdi12ParsingError,
> {
    match r {
        Ok(ws) => Ok(vs + ws),
        Err(e) => Err(e),
    }
}

/// The first value of `s[start..]` ends at `i`, where the next sign (or the
/// end) is.
proof fn lemma_first_token(s: Seq<u8>, start: int, i: int)
    requires
        0 <= start < i <= s.len(),
        forall|j: int| start < j < i ==> !is_sign(s[j]),
        i < s.len() ==> is_sign(s[i]),
    ensures
        ({
            let t = s.subrange(start, s.len() as int);
            1 + sign_index(t.subrange(1, t.len() as int)) == i - start
        }),
{
    let t = s.subrange(start, s.len() as int);
    let u = t.subrange(1, t.len() as int);
    assert forall|j: int| 0 <= j < i - start - 1 implies !is_sign(u[j]) by {
        assert(u[j] == s[start + 1 + j]);
    }
    lemma_sign_index(u, i - start - 1);
}

/// Splits `+v-v...` before each sign and parses every value.
fn parse_data_values(s: &[u8]) -> (r: Result<Vec<Sdi12Value>, Sdi12ParsingError>)
    requires
        s@.len() >= 1,
    ensures
        match data_values(s@) {
            Ok(vs) => r matches Ok(v) && v@ == vs,
            Err(e) => r == Err::<Vec<Sdi12Value>, Sdi12ParsingError>(e),
        },
{
    let n = s.len();
    let mut values: Vec<Sdi12Value> = Vec::new();
    let mut start: usize = 0;
    let mut i: usize = 1;
    proof {
        assert(s@.subrange(0, n as int) =~= s@);
        match data_values(s@) {
            Ok(ws) => {
                assert(values@ + ws =~= ws);
            },
            Err(e) => {},
        }
    }
    while i < n
        invariant
            n == s@.len(),
            0 <= start < i <= n,
            forall|j: int| start < j < i ==> !is_sign(#[trigger] s@[j]),
            data_values(s@) == prepend(values@, data_values(s@.subrange(start as int, n as int))),
        decreases n - i,
    {
        if s[i] == '+' as u8 || s[i] == '-' as u8 {
            let ghost t = s@.subrange(start as int, n as int);
            proof {
                lemma_first_token(s@, start as int, i as int);
                assert(t.subrange(0, (i - start) as int) =~= s@.subrange(start as int, i as int));
                assert(t.subrange((i - start) as int, t.len() as int) =~= s@.subrange(
                    i as int,
                    n as int,
                ));
            }
            match parse_value(slice_subrange(s, start, i)) {
                Ok(v) => {
                    proof {
                        assert(values@.push(v) =~= values@ + seq![v]);
                        match data_values(s@.subrange(i as int, n as int)) {
                            Ok(ws) => {
                                assert(values@ + (seq![v] + ws) =~= values@.push(v) + ws);
                            },
                            Err(e) => {},
                        }
                    }
                    values.push(v);
                    start = i;
                },
                Err(e) => {
                    return Err(e);
                },
            }
        }
        i = i + 1;
    }
    let ghost t = s@.subrange(start as int, n as int);
    proof {
        lemma_first_token(s@, start as int, n as int);
        assert(t.subrange(0, (n - start) as int) =~= t);
    }
    match parse_value(slice_subrange(s, start, n)) {
        Ok(v) => {
            values.push(v);
            Ok(values)
        },
        Err(e) => Err(e),
    }
}

/// The first comma of `s[start..]` is at `i`, or there is none.
proof fn lemma_first_comma(s: Seq<u8>, start: int, i: int)
    requires
        0 <= start <= i <= s.len(),
        forall|j: int| start <= j < i ==> s[j] != (',' as u8),
        i < s.len() ==> s[i] == (',' as u8),
    ensures
        index_of(s.subrange(start, s.len() as int), (',' as u8)) == i - start,
{
    let t = s.subrange(start, s.len() as int);
    assert forall|j: int| 0 <= j < i - start implies t[j] != (',' as u8) by {
        assert(t[j] == s[start + j]);
    }
    crate::parser::lemma_index_of(t, (',' as u8), i - start);
}

/// Splits `s` at each comma and decodes every piece as UTF-8 text.
fn parse_metadata_fields(s: &[u8]) -> (r: Option<Vec<String>>)
    ensures
        r is Some <==> all_valid_utf8(comma_pieces(s@)),
        r matches Some(f) ==> fields_match(f@, comma_pieces(s@)),
{
    let n = s.len();
    let mut fields: Vec<String> = Vec::new();
    let ghost mut done: Seq<Seq<u8>> = seq![];
    let mut start: usize = 0;
    let mut i: usize = 0;
    proof {
        assert(s@.subrange(0, n as int) =~= s@);
        assert(done + comma_pieces(s@) =~= comma_pieces(s@));
    }
    while i < n
        invariant
            n == s@.len(),
            0 <= start <= i <= n,
            forall|j: int| start <= j < i ==> #[trigger] s@[j] != (',' as u8),
            comma_pieces(s@) == done + comma_pieces(s@.subrange(start as int, n as int)),
            fields_match(fields@, done),
        decreases n - i,
    {
        if s[i] == ',' as u8 {
            let ghost t = s@.subrange(start as int, n as int);
            let ghost piece = s@.subrange(start as int, i as int);
            proof {
                lemma_first_comma(s@, start as int, i as int);
                assert(t.subrange(0, (i - start) as int) =~= piece);
                assert(t.subrange((i - start) + 1, t.len() as int) =~= s@.subrange(
                    i + 1,
                    n as int,
                ));
                assert(comma_pieces(s@) =~= (done + seq![piece]) + comma_pieces(
                    s@.subrange(i + 1, n as int),
                ));
            }
            match text_of(slice_subrange(s, start, i)) {
                Some(f) => {
                    fields.push(f);
                    proof {
                        done = done + seq![piece];
                        assert(fields_match(fields@, done));
                    }
                    start = i + 1;
                },
                None => {
                    proof {
                        let idx = done.len() as int;
                        assert(comma_pieces(s@)[idx] == piece);
                    }
                    return None;
                },
            }
        }
        i = i + 1;
    }
    let ghost t = s@.subrange(start as int, n as int);
    proof {
        lemma_first_comma(s@, start as int, n as int);
        assert(comma_pieces(s@) =~= done + seq![t]);
    }
    match text_of(slice_subrange(s, start, n)) {
        Some(f) => {
            fields.push(f);
            proof {
                assert forall|k: int| 0 <= k < comma_pieces(s@).len() implies valid_utf8(
                    #[trigger] comma_pieces(s@)[k],
                ) && fields@[k]@ == decode_utf8(comma_pieces(s@)[k]) by {
                    if k < done.len() {
                        assert(comma_pieces(s@)[k] == done[k]);
                    }
                }
            }
            Some(fields)
        },
        None => {
            proof {
                assert(comma_pieces(s@)[done.len() as int] == t);
            }
            None
        },
    }
}


/// The value of three or fewer digits.
fn small_digits_value(s: &[u8]) -> (r: u16)
    requires
        1 <= s@.len() <= 3,
        all_digits(s@),
    ensures
        r == digits_value(s@),
        r < 1000,
{
    proof {
        lemma_digits_bound(s@);
        assert(pow10(0) == 1);
        assert(pow10(1) == 10);
        assert(pow10(2) == 100);
        assert(pow10(3) == 1000);
    }
    digits_value_capped(s) as u16
}

/// Decodes the payload `rest` of a response from address `a` that carried
/// CRC `crc`.
fn decode_payload(a: Sdi12Addr, rest: &[u8], crc: Option<u16>) -> (r: Result<
    Response,
    ResponseParseError,
>)
    ensures
        payload_decodes_to(r, a, rest@, crc),
{
    let n = rest.len();
    if n == 1 && crc.is_none() {
        return match Sdi12Addr::new::<()>(rest[0] as char) {
            Ok(b) => Ok(Response::Address { address: b }),
            Err(_) => Err(ResponseParseError::InvalidAddressChar),
        };
    }
    if n == 0 {
        return match crc {
            Some(v) => Ok(Response::Aborted { address: a, crc: Some(v) }),
            None => {
                if a.is_standard() {
                    Ok(Response::Acknowledge { address: a })
                } else {
                    Ok(Response::Address { address: a })
                }
            },
        };
    }
    if 4 <= n && n <= 6 && are_digits(rest) {
        let head = slice_subrange(rest, 0, 3);
        let tail = slice_subrange(rest, 3, n);
        proof {
            assert forall|i: int| 0 <= i < head@.len() implies is_digit(#[trigger] head@[i]) by {
                assert(head@[i] == rest@[i]);
            }
            assert forall|i: int| 0 <= i < tail@.len() implies is_digit(#[trigger] tail@[i]) by {
                assert(tail@[i] == rest@[i + 3]);
            }
        }
        let time_seconds = small_digits_value(head);
        let values_count = small_digits_value(tail);
        return Ok(
            Response::MeasurementTiming(MeasurementTiming { address: a, time_seconds, values_count }),
        );
    }
    if n >= 19 && byte_is_digit(rest[0]) && byte_is_digit(rest[1]) {
        let sdi_version = (rest[0] - 48) * 10 + (rest[1] - 48);
        proof {
            let v = rest@.subrange(0, 2);
            lemma_digits_value_push(Seq::<u8>::empty(), rest@[0]);
            lemma_digits_value_push(seq![rest@[0]], rest@[1]);
            assert(Seq::<u8>::empty().push(rest@[0]) =~= seq![rest@[0]]);
            assert(seq![rest@[0]].push(rest@[1]) =~= v);
        }
        let vendor = match text_of(slice_subrange(rest, 2, 10)) {
            Some(t) => t,
            None => {
                return Err(ResponseParseError::InvalidUtf8);
            },
        };
        let model = match text_of(slice_subrange(rest, 10, 16)) {
            Some(t) => t,
            None => {
                return Err(ResponseParseError::InvalidUtf8);
            },
        };
        let version = match text_of(slice_subrange(rest, 16, 19)) {
            Some(t) => t,
            None => {
                return Err(ResponseParseError::InvalidUtf8);
            },
        };
        let optional = if n > 19 {
            let end = if n < 32 {
                n
            } else {
                32
            };
            match text_of(slice_subrange(rest, 19, end)) {
                Some(t) => Some(t),
                None => {
                    return Err(ResponseParseError::InvalidUtf8);
                },
            }
        } else {
            None
        };
        return Ok(
            Response::Identification(
                IdentificationInfo { address: a, sdi_version, vendor, model, version, optional },
            ),
        );
    }
    if rest[0] == ',' as u8 && rest[n - 1] == ';' as u8 {
        return match parse_metadata_fields(slice_subrange(rest, 1, n - 1)) {
            Some(fields) => Ok(Response::Metadata(MetadataInfo { address: a, fields, crc })),
            None => Err(ResponseParseError::InvalidUtf8),
        };
    }
    if rest[0] == '+' as u8 || rest[0] == '-' as u8 {
        return match parse_data_values(rest) {
            Ok(values) => Ok(Response::Data(DataInfo { address: a, values, crc })),
            Err(e) => Err(ResponseParseError::ValueError(e)),
        };
    }
    Err(ResponseParseError::InvalidFormat)
}

/// Decodes an ASCII response: address, payload, optional CRC, `<CR><LF>`.
/// When the last three payload bytes look like an ASCII CRC they must match
/// the checksum of the bytes before them. A lone address byte answers with
/// `Acknowledge` for a digit and `Address` (the confirmed new address) for a
/// letter; a single byte after the address is a new address.
pub fn parse_response(buffer: &[u8]) -> (r: Result<Response, ResponseParseError>)
    ensures
        decodes_to(r, buffer@),
{
    let p = match trim_cr_lf(buffer) {
        Some(p) => p,
        None => {
            return Err(ResponseParseError::MissingCrLf);
        },
    };
    let m = p.len();
    if m == 0 {
        return Err(ResponseParseError::TooShort);
    }
    if p[0] == '?' as u8 {
        return Err(ResponseParseError::InvalidAddressChar);
    }
    let address = match Sdi12Addr::new::<()>(p[0] as char) {
        Ok(a) => a,
        Err(_) => {
            return Err(ResponseParseError::InvalidAddressChar);
        },
    };
    if m >= 4 && p[m - 3] & 0xC0u8 == 0x40u8 && p[m - 2] & 0xC0u8 == 0x40u8 && p[m - 1] & 0xC0u8
        == 0x40u8 {
        let received = crc_ascii_value_at(p, m - 3);
        let calculated = calculate_crc16(slice_prefix(p, m - 3));
        if calculated == received {
            decode_payload(address, slice_subrange(p, 1, m - 3), Some(received))
        } else {
            Err(ResponseParseError::CrcMismatch)
        }
    } else {
        decode_payload(address, slice_subrange(p, 1, m), None)
    }
}

/// What `parse_binary_packet` makes of `b`: address, little-endian size,
/// type code, payload, little-endian CRC.
pub open spec fn binary_packet_ok(b: Seq<u8>) -> bool {
    let n = b.len();
    &&& n >= 6
    &&& crc16_arc(b.subrange(0, n - 2)) == le_u16(b[n - 2], b[n - 1])
    &&& b[0] != ('?' as u8) && addr_value_ok(b[0] as char)
    &&& binary_type_of(b[3]) is Some
    &&& le_u16(b[1], b[2]) == n - 6
    &&& le_u16(b[1], b[2]) <= 1000
    &&& (le_u16(b[1], b[2]) > 0 && binary_type_of(b[3])->0.spec_size() > 0 ==> (le_u16(b[1], b[2]) as int)
        % (binary_type_of(b[3])->0.spec_size() as int) == 0)
}

/// The error `parse_binary_packet` reports for `b`, checks taken in order.
pub open spec fn binary_packet_error(b: Seq<u8>) -> ResponseParseError {
    let n = b.len();
    if n < 6 {
        ResponseParseError::TooShort
    } else if crc16_arc(b.subrange(0, n - 2)) != le_u16(b[n - 2], b[n - 1]) {
        ResponseParseError::CrcMismatch
    } else if b[0] == ('?' as u8) || !addr_value_ok(b[0] as char) {
        ResponseParseError::InvalidAddressChar
    } else if binary_type_of(b[3]) is None {
        ResponseParseError::InvalidBinaryDataType
    } else {
        ResponseParseError::InconsistentBinaryPacketSize
    }
}

/// Decodes a high-volume binary packet. The CRC is checked first; the size
/// field must equal the payload length, be at most 1000 and be a multiple of
/// the type's element size.
pub fn parse_binary_packet(buffer: &[u8]) -> (r: Result<Response, ResponseParseError>)
    ensures
        binary_packet_ok(buffer@) <==> r is Ok,
        !binary_packet_ok(buffer@) ==> r == Err::<Response, ResponseParseError>(
            binary_packet_error(buffer@),
        ),
        r matches Ok(resp) ==> ({
            let b = buffer@;
            let n = b.len();
            resp matches Response::BinaryData(info) && info.address == Sdi12Addr::spec_from_char(
                b[0] as char,
            ) && info.packet_size == le_u16(b[1], b[2]) && Some(info.data_type) == binary_type_of(
                b[3],
            ) && info.payload@ == b.subrange(4, n - 2) && info.crc == le_u16(b[n - 2], b[n - 1])
        }),
{
    let n = buffer.len();
    if n < 6 {
        return Err(ResponseParseError::TooShort);
    }
    match crate::crc::verify_packet_crc_binary::<()>(buffer) {
        Ok(()) => {},
        Err(_) => {
            return Err(ResponseParseError::CrcMismatch);
        },
    }
    if buffer[0] == '?' as u8 {
        return Err(ResponseParseError::InvalidAddressChar);
    }
    let address = match Sdi12Addr::new::<()>(buffer[0] as char) {
        Ok(a) => a,
        Err(_) => {
            return Err(ResponseParseError::InvalidAddressChar);
        },
    };
    let packet_size = (buffer[1] as u16) | ((buffer[2] as u16) << 8u16);
    let data_type = match BinaryDataType::from_u8(buffer[3]) {
        Some(t) => t,
        None => {
            return Err(ResponseParseError::InvalidBinaryDataType);
        },
    };
    let crc_index = n - 2;
    let actual = crc_index - 4;
    if packet_size as usize != actual || packet_size > 1000 {
        return Err(ResponseParseError::InconsistentBinaryPacketSize);
    }
    let type_size = data_type.size_in_bytes();
    if packet_size > 0 && type_size > 0 && (packet_size as usize) % type_size != 0 {
        return Err(ResponseParseError::InconsistentBinaryPacketSize);
    }
    let payload = slice_to_vec(slice_subrange(buffer, 4, crc_index));
    let crc = (buffer[crc_index] as u16) | ((buffer[crc_index + 1] as u16) << 8u16);
    Ok(
        Response::BinaryData(BinaryDataInfo { address, packet_size, data_type, payload, crc }),
    )
}

} // verus!
