//! The command model's own parser: wire bytes back to a `Command`.

use vstd::prelude::*;
use vstd::slice::slice_subrange;
use vstd::utf8::{encode_utf8, is_ascii_chars, is_ascii_chars_encode_utf8};

use crate::address::{addr_value_ok, address_char, Sdi12Addr};
use crate::command::{
    addr_byte, ascii_bytes, byte_of, decimal, decimal3, digit_byte, m_suffix, param_suffix, Command, CommandIndexError, ContinuousIndex, DataIndex,
    IdentifyMeasurementCommand, IdentifyMeasurementParameterCommand, IdentifyParameterIndex,
    MeasurementIndex,
};
use crate::error::Sdi12Error;

verus! {

// ---- Specification ----

/// The outcome of parsing command bytes, with an extended command's body left
/// as the bytes between address and `!`.
pub enum ParsedCommand {
    Standard(Command),
    Extended(Sdi12Addr),
    Rejected(Sdi12Error<()>),
}

pub open spec fn is_digit(b: u8) -> bool {
    48 <= b && b <= 57
}

pub open spec fn all_digits(s: Seq<u8>) -> bool {
    forall|i: int| 0 <= i < s.len() ==> is_digit(#[trigger] s[i])
}

/// The value of a string of decimal digits (leading zeros allowed).
pub open spec fn digits_value(s: Seq<u8>) -> nat
    decreases s.len(),
{
    if s.len() == 0 {
        0
    } else {
        digits_value(s.drop_last()) * 10 + (s.last() - 48) as nat
    }
}

/// The characters of ASCII bytes.
pub open spec fn ascii_chars(b: Seq<u8>) -> Seq<char> {
    b.map_values(|x: u8| x as char)
}

/// Position of the first `x` in `s`, or `s.len()` when there is none.
pub open spec fn index_of(s: Seq<u8>, x: u8) -> int
    decreases s.len(),
{
    if s.len() == 0 {
        0
    } else if s[0] == x {
        0
    } else {
        1 + index_of(s.subrange(1, s.len() as int), x)
    }
}

pub open spec fn lift(r: Result<Command, Sdi12Error<()>>) -> ParsedCommand {
    match r {
        Ok(c) => ParsedCommand::Standard(c),
        Err(e) => ParsedCommand::Rejected(e),
    }
}

pub open spec fn format_err() -> Result<Command, Sdi12Error<()>> {
    Err(Sdi12Error::InvalidFormat)
}

pub open spec fn index_err(e: CommandIndexError) -> Result<Command, Sdi12Error<()>> {
    Err(Sdi12Error::InvalidCommandIndex(e))
}

/// The measurement commands named by `code` (`M`, `MC`, `C`, `CC`).
pub open spec fn measurement_code_spec(a: Sdi12Addr, code: Seq<u8>, index: MeasurementIndex) -> Result<
    Command,
    Sdi12Error<()>,
> {
    if code == seq![('M' as u8)] {
        Ok(Command::StartMeasurement { address: a, index })
    } else if code == seq![('M' as u8), ('C' as u8)] {
        Ok(Command::StartMeasurementCRC { address: a, index })
    } else if code == seq![('C' as u8)] {
        Ok(Command::StartConcurrentMeasurement { address: a, index })
    } else if code == seq![('C' as u8), ('C' as u8)] {
        Ok(Command::StartConcurrentMeasurementCRC { address: a, index })
    } else {
        format_err()
    }
}

/// A body that starts with `M` or `C`: a code of one or two letters and an
/// optional one-digit index, checked for range before the code is.
pub open spec fn measurement_spec(a: Sdi12Addr, body: Seq<u8>) -> Result<Command, Sdi12Error<()>> {
    let n = body.len();
    if n == 1 || (n == 2 && !is_digit(body[1])) {
        measurement_code_spec(a, body, MeasurementIndex::Base)
    } else if (n == 2 || n == 3) && is_digit(body[n - 1]) {
        let d = (body[n - 1] - 48) as u8;
        if 1 <= d && d <= 9 {
            measurement_code_spec(a, body.subrange(0, n - 1), MeasurementIndex::Indexed(d))
        } else {
            index_err(CommandIndexError::MeasurementOutOfRange)
        }
    } else {
        format_err()
    }
}

/// A body that starts with `D`: `D` or `DB`, then a decimal index.
pub open spec fn data_spec(a: Sdi12Addr, body: Seq<u8>) -> Result<Command, Sdi12Error<()>> {
    let binary = body.len() >= 2 && body[1] == ('B' as u8);
    let digits = if binary {
        body.subrange(2, body.len() as int)
    } else {
        body.subrange(1, body.len() as int)
    };
    if digits.len() == 0 || !all_digits(digits) || digits_value(digits) > 65535 {
        format_err()
    } else if digits_value(digits) > 999 {
        index_err(CommandIndexError::DataOutOfRange)
    } else {
        let index = DataIndex::spec_new(digits_value(digits) as u16);
        if binary {
            Ok(Command::SendBinaryData { address: a, index })
        } else {
            Ok(Command::SendData { address: a, index })
        }
    }
}

/// A body that starts with `R`: `R` or `RC`, then exactly one digit.
pub open spec fn continuous_spec(a: Sdi12Addr, body: Seq<u8>) -> Result<Command, Sdi12Error<()>> {
    let crc = body.len() >= 2 && body[1] == ('C' as u8);
    let digits = if crc {
        body.subrange(2, body.len() as int)
    } else {
        body.subrange(1, body.len() as int)
    };
    if digits.len() != 1 || !is_digit(digits[0]) {
        format_err()
    } else {
        let index = ContinuousIndex::spec_new((digits[0] - 48) as u8);
        if crc {
            Ok(Command::ReadContinuousCRC { address: a, index })
        } else {
            Ok(Command::ReadContinuous { address: a, index })
        }
    }
}

/// The code of an identify command.
#[derive(Copy, Clone, PartialEq, Eq, Structural)]
pub enum IdentifyCode {
    M,
    MC,
    C,
    CC,
    R,
    RC,
    V,
    HA,
    HB,
}

/// The part of an identify body before any `_`: its code and the digit of
/// its index, if any; `None` when it is not one.
pub open spec fn identify_main_spec(main: Seq<u8>) -> Option<(IdentifyCode, Option<u8>)> {
    let n = main.len();
    if n >= 2 && main[0] == ('I' as u8) && (main[1] == ('M' as u8) || main[1] == ('C' as u8)
        || main[1] == ('R' as u8)) {
        let long = n >= 3 && main[2] == ('C' as u8);
        let code_len: int = if long {
            3
        } else {
            2
        };
        let code = if main[1] == ('M' as u8) {
            if long {
                IdentifyCode::MC
            } else {
                IdentifyCode::M
            }
        } else if main[1] == ('C' as u8) {
            if long {
                IdentifyCode::CC
            } else {
                IdentifyCode::C
            }
        } else {
            if long {
                IdentifyCode::RC
            } else {
                IdentifyCode::R
            }
        };
        if n == code_len {
            Some((code, None))
        } else if n == code_len + 1 && is_digit(main[code_len]) {
            Some((code, Some((main[code_len] - 48) as u8)))
        } else {
            None
        }
    } else if main == seq![('I' as u8), ('V' as u8)] {
        Some((IdentifyCode::V, None))
    } else if main == seq![('I' as u8), ('H' as u8), ('A' as u8)] {
        Some((IdentifyCode::HA, None))
    } else if main == seq![('I' as u8), ('H' as u8), ('B' as u8)] {
        Some((IdentifyCode::HB, None))
    } else {
        None
    }
}

pub open spec fn m_index_of(d: Option<u8>) -> Option<MeasurementIndex> {
    match d {
        None => Some(MeasurementIndex::Base),
        Some(d) => if 1 <= d && d <= 9 {
            Some(MeasurementIndex::Indexed(d))
        } else {
            None
        },
    }
}

/// The identify command with code `code`, index digit `d` and no parameter.
pub open spec fn identify_plain_spec(a: Sdi12Addr, code: IdentifyCode, d: Option<u8>) -> Result<
    Command,
    Sdi12Error<()>,
> {
    match code {
        IdentifyCode::V => Ok(
            Command::IdentifyMeasurement(IdentifyMeasurementCommand::Verification { address: a }),
        ),
        IdentifyCode::HA => Ok(
            Command::IdentifyMeasurement(IdentifyMeasurementCommand::HighVolumeASCII { address: a }),
        ),
        IdentifyCode::HB => Ok(
            Command::IdentifyMeasurement(IdentifyMeasurementCommand::HighVolumeBinary { address: a }),
        ),
        IdentifyCode::R | IdentifyCode::RC => format_err(),
        _ => match m_index_of(d) {
            None => index_err(CommandIndexError::MeasurementOutOfRange),
            Some(index) => Ok(
                Command::IdentifyMeasurement(
                    match code {
                        IdentifyCode::M => IdentifyMeasurementCommand::Measurement { address: a, index },
                        IdentifyCode::MC => IdentifyMeasurementCommand::MeasurementCRC {
                            address: a,
                            index,
                        },
                        IdentifyCode::C => IdentifyMeasurementCommand::ConcurrentMeasurement {
                            address: a,
                            index,
                        },
                        _ => IdentifyMeasurementCommand::ConcurrentMeasurementCRC {
                            address: a,
                            index,
                        },
                    },
                ),
            ),
        },
    }
}

/// The identify command with code `code`, index digit `d` and parameter `p`.
pub open spec fn identify_param_spec(
    a: Sdi12Addr,
    code: IdentifyCode,
    d: Option<u8>,
    p: IdentifyParameterIndex,
) -> Result<Command, Sdi12Error<()>> {
    match code {
        IdentifyCode::V => Ok(
            Command::IdentifyMeasurementParameter(
                IdentifyMeasurementParameterCommand::Verification { address: a, param_index: p },
            ),
        ),
        IdentifyCode::HA => Ok(
            Command::IdentifyMeasurementParameter(
                IdentifyMeasurementParameterCommand::HighVolumeASCII { address: a, param_index: p },
            ),
        ),
        IdentifyCode::HB => Ok(
            Command::IdentifyMeasurementParameter(
                IdentifyMeasurementParameterCommand::HighVolumeBinary { address: a, param_index: p },
            ),
        ),
        IdentifyCode::R | IdentifyCode::RC => match d {
            None => format_err(),
            Some(d) => {
                let r_index = ContinuousIndex::spec_new(d);
                Ok(
                    Command::IdentifyMeasurementParameter(
                        if code == IdentifyCode::R {
                            IdentifyMeasurementParameterCommand::ReadContinuous {
                                address: a,
                                r_index,
                                param_index: p,
                            }
                        } else {
                            IdentifyMeasurementParameterCommand::ReadContinuousCRC {
                                address: a,
                                r_index,
                                param_index: p,
                            }
                        },
                    ),
                )
            },
        },
        _ => match m_index_of(d) {
            None => index_err(CommandIndexError::MeasurementOutOfRange),
            Some(m) => Ok(
                Command::IdentifyMeasurementParameter(
                    match code {
                        IdentifyCode::M => IdentifyMeasurementParameterCommand::Measurement {
                            address: a,
                            m_index: m,
                            param_index: p,
                        },
                        IdentifyCode::MC => IdentifyMeasurementParameterCommand::MeasurementCRC {
                            address: a,
                            m_index: m,
                            param_index: p,
                        },
                        IdentifyCode::C => IdentifyMeasurementParameterCommand::ConcurrentMeasurement {
                            address: a,
                            c_index: m,
                            param_index: p,
                        },
                        _ => IdentifyMeasurementParameterCommand::ConcurrentMeasurementCRC {
                            address: a,
                            c_index: m,
                            param_index: p,
                        },
                    },
                ),
            ),
        },
    }
}

/// A body that starts with `I` (other than `I` alone): the code part, then an
/// optional `_nnn` parameter of exactly three digits whose value is 1-999.
pub open spec fn identify_spec(a: Sdi12Addr, body: Seq<u8>) -> Result<Command, Sdi12Error<()>> {
    let k = index_of(body, ('_' as u8));
    let main = body.subrange(0, k);
    match identify_main_spec(main) {
        None => format_err(),
        Some((code, d)) => if k < body.len() {
            let param = body.subrange(k + 1, body.len() as int);
            if param.len() != 3 || !all_digits(param) {
                format_err()
            } else if digits_value(param) < 1 {
                index_err(CommandIndexError::IdentifyParamOutOfRange)
            } else {
                identify_param_spec(
                    a,
                    code,
                    d,
                    IdentifyParameterIndex::spec_new(digits_value(param) as u16),
                )
            }
        } else {
            identify_plain_spec(a, code, d)
        },
    }
}

/// The command body (between address and `!`, all ASCII) of a sensor
/// address `a`. An unrecognised body of two or more characters is an
/// extended command.
pub open spec fn body_spec(a: Sdi12Addr, body: Seq<u8>) -> ParsedCommand {
    let n = body.len();
    if n == 0 {
        ParsedCommand::Standard(Command::AcknowledgeActive { address: a })
    } else if body == seq![('I' as u8)] {
        ParsedCommand::Standard(Command::SendIdentification { address: a })
    } else if body == seq![('V' as u8)] {
        ParsedCommand::Standard(Command::StartVerification { address: a })
    } else if body == seq![('H' as u8), ('A' as u8)] {
        ParsedCommand::Standard(Command::StartHighVolumeASCII { address: a })
    } else if body == seq![('H' as u8), ('B' as u8)] {
        ParsedCommand::Standard(Command::StartHighVolumeBinary { address: a })
    } else if body[0] == ('A' as u8) && n == 2 {
        if addr_value_ok(body[1] as char) {
            ParsedCommand::Standard(
                Command::ChangeAddress {
                    address: a,
                    new_address: Sdi12Addr::spec_from_char(body[1] as char),
                },
            )
        } else {
            ParsedCommand::Rejected(Sdi12Error::InvalidAddress(body[1] as char))
        }
    } else if body[0] == ('M' as u8) || body[0] == ('C' as u8) {
        lift(measurement_spec(a, body))
    } else if body[0] == ('D' as u8) {
        lift(data_spec(a, body))
    } else if body[0] == ('R' as u8) {
        lift(continuous_spec(a, body))
    } else if body[0] == ('I' as u8) {
        lift(identify_spec(a, body))
    } else if n >= 2 {
        ParsedCommand::Extended(a)
    } else {
        ParsedCommand::Rejected(Sdi12Error::InvalidFormat)
    }
}

/// What `parse_command` makes of `b`.
pub open spec fn parse_command_spec(b: Seq<u8>) -> ParsedCommand {
    if b.len() < 2 || b.last() != ('!' as u8) {
        ParsedCommand::Rejected(Sdi12Error::InvalidFormat)
    } else if !addr_value_ok(b[0] as char) {
        ParsedCommand::Rejected(Sdi12Error::InvalidAddress(b[0] as char))
    } else {
        let body = b.subrange(1, b.len() - 1);
        if b[0] == ('?' as u8) {
            if body.len() == 0 {
                ParsedCommand::Standard(Command::AddressQuery)
            } else {
                ParsedCommand::Rejected(Sdi12Error::InvalidFormat)
            }
        } else if !ascii_bytes(body) {
            ParsedCommand::Rejected(Sdi12Error::InvalidFormat)
        } else {
            body_spec(Sdi12Addr::spec_from_char(b[0] as char), body)
        }
    }
}

/// `r` is what `p` describes for the command bytes `b`.
pub open spec fn parse_matches(r: Result<Command, Sdi12Error<()>>, p: ParsedCommand, b: Seq<u8>) -> bool {
    match p {
        ParsedCommand::Standard(c) => r == Ok::<Command, Sdi12Error<()>>(c),
        ParsedCommand::Extended(a) => r matches Ok(Command::ExtendedCommand { address, command_body })
            && address == a && command_body@ == ascii_chars(b.subrange(1, b.len() - 1)),
        ParsedCommand::Rejected(e) => r == Err::<Command, Sdi12Error<()>>(e),
    }
}


// ---- Parsing ----

/// Relies on `String::from_utf8`: bytes below 128 are valid UTF-8 and each
/// stands for the character with its value.
#[verifier::external_body]
fn string_from_ascii(b: &[u8]) -> (r: String)
    requires
        ascii_bytes(b@),
    ensures
        r@ == ascii_chars(b@),
{
    String::from_utf8(b.to_vec()).unwrap_or_default()
}

fn eq1(s: &[u8], x: u8) -> (r: bool)
    ensures
        r == (s@ == seq![x]),
{
    let r = s.len() == 1 && s[0] == x;
    assert(r ==> s@ =~= seq![x]);
    r
}

fn eq2(s: &[u8], x: u8, y: u8) -> (r: bool)
    ensures
        r == (s@ == seq![x, y]),
{
    let r = s.len() == 2 && s[0] == x && s[1] == y;
    assert(r ==> s@ =~= seq![x, y]);
    r
}

fn eq3(s: &[u8], x: u8, y: u8, z: u8) -> (r: bool)
    ensures
        r == (s@ == seq![x, y, z]),
{
    let r = s.len() == 3 && s[0] == x && s[1] == y && s[2] == z;
    assert(r ==> s@ =~= seq![x, y, z]);
    r
}

pub(crate) fn byte_is_digit(b: u8) -> (r: bool)
    ensures
        r == is_digit(b),
{
    48 <= b && b <= 57
}

pub(crate) fn are_digits(s: &[u8]) -> (r: bool)
    ensures
        r == all_digits(s@),
{
    let mut i: usize = 0;
    while i < s.len()
        invariant
            i <= s@.len(),
            forall|j: int| 0 <= j < i ==> is_digit(#[trigger] s@[j]),
        decreases s@.len() - i,
    {
        if !byte_is_digit(s[i]) {
            return false;
        }
        i = i + 1;
    }
    true
}

fn are_ascii(s: &[u8]) -> (r: bool)
    ensures
        r == ascii_bytes(s@),
{
    let mut i: usize = 0;
    while i < s.len()
        invariant
            i <= s@.len(),
            forall|j: int| 0 <= j < i ==> #[trigger] s@[j] < 128,
        decreases s@.len() - i,
    {
        if s[i] >= 128 {
            return false;
        }
        i = i + 1;
    }
    true
}

/// The value of a digit string, or 65536 when it is larger.
pub(crate) fn digits_value_capped(s: &[u8]) -> (r: u32)
    requires
        all_digits(s@),
    ensures
        r == if digits_value(s@) > 65535 {
            65536
        } else {
            digits_value(s@)
        },
{
    let mut acc: u32 = 0;
    let mut i: usize = 0;
    while i < s.len()
        invariant
            i <= s@.len(),
            all_digits(s@),
            acc == if digits_value(s@.subrange(0, i as int)) > 65535 {
                65536
            } else {
                digits_value(s@.subrange(0, i as int))
            },
        decreases s@.len() - i,
    {
        let ghost pre = s@.subrange(0, i as int);
        let ghost next = s@.subrange(0, i + 1);
        assert(next.drop_last() =~= pre);
        assert(is_digit(s@[i as int]));
        if acc > 65535 {
            assert(digits_value(next) == digits_value(pre) * 10 + (s@[i as int] - 48) as nat);
            assert(digits_value(next) >= digits_value(pre)) by (nonlinear_arith)
                requires
                    digits_value(next) == digits_value(pre) * 10 + (s@[i as int] - 48) as nat,
            ;
        } else {
            acc = acc * 10 + (s[i] - 48) as u32;
            if acc > 65535 {
                acc = 65536;
            }
        }
        i = i + 1;
    }
    assert(s@.subrange(0, s@.len() as int) =~= s@);
    acc
}

fn measurement_code(address: Sdi12Addr, code: &[u8], index: MeasurementIndex) -> (r: Result<
    Command,
    Sdi12Error<()>,
>)
    ensures
        r == measurement_code_spec(address, code@, index),
{
    if eq1(code, 'M' as u8) {
        Ok(Command::StartMeasurement { address, index })
    } else if eq2(code, 'M' as u8, 'C' as u8) {
        Ok(Command::StartMeasurementCRC { address, index })
    } else if eq1(code, 'C' as u8) {
        Ok(Command::StartConcurrentMeasurement { address, index })
    } else if eq2(code, 'C' as u8, 'C' as u8) {
        Ok(Command::StartConcurrentMeasurementCRC { address, index })
    } else {
        Err(Sdi12Error::InvalidFormat)
    }
}

/// Parses the M, MC, C and CC commands.
fn parse_measurement_command(address: Sdi12Addr, body: &[u8]) -> (r: Result<
    Command,
    Sdi12Error<()>,
>)
    requires
        body@.len() >= 1,
    ensures
        r == measurement_spec(address, body@),
{
    let n = body.len();
    if n == 1 || (n == 2 && !byte_is_digit(body[1])) {
        measurement_code(address, body, MeasurementIndex::Base)
    } else if (n == 2 || n == 3) && byte_is_digit(body[n - 1]) {
        let d = body[n - 1] - 48;
        match MeasurementIndex::new(Some(d)) {
            Ok(index) => measurement_code(address, slice_subrange(body, 0, n - 1), index),
            Err(e) => Err(Sdi12Error::InvalidCommandIndex(e)),
        }
    } else {
        Err(Sdi12Error::InvalidFormat)
    }
}

/// Parses the D and DB commands.
fn parse_data_command(address: Sdi12Addr, body: &[u8]) -> (r: Result<Command, Sdi12Error<()>>)
    requires
        body@.len() >= 1,
    ensures
        r == data_spec(address, body@),
{
    let n = body.len();
    let binary = n >= 2 && body[1] == 'B' as u8;
    let digits = if binary {
        slice_subrange(body, 2, n)
    } else {
        slice_subrange(body, 1, n)
    };
    if digits.len() == 0 || !are_digits(digits) {
        return Err(Sdi12Error::InvalidFormat);
    }
    let v = digits_value_capped(digits);
    if v > 65535 {
        return Err(Sdi12Error::InvalidFormat);
    }
    match DataIndex::new(v as u16) {
        Ok(index) => {
            if binary {
                Ok(Command::SendBinaryData { address, index })
            } else {
                Ok(Command::SendData { address, index })
            }
        },
        Err(e) => Err(Sdi12Error::InvalidCommandIndex(e)),
    }
}

/// Parses the R and RC commands.
fn parse_continuous_command(address: Sdi12Addr, body: &[u8]) -> (r: Result<
    Command,
    Sdi12Error<()>,
>)
    requires
        body@.len() >= 1,
    ensures
        r == continuous_spec(address, body@),
{
    let n = body.len();
    let crc = n >= 2 && body[1] == 'C' as u8;
    let digits = if crc {
        slice_subrange(body, 2, n)
    } else {
        slice_subrange(body, 1, n)
    };
    if digits.len() != 1 || !byte_is_digit(digits[0]) {
        return Err(Sdi12Error::InvalidFormat);
    }
    match ContinuousIndex::new(digits[0] - 48) {
        Ok(index) => {
            if crc {
                Ok(Command::ReadContinuousCRC { address, index })
            } else {
                Ok(Command::ReadContinuous { address, index })
            }
        },
        Err(e) => Err(Sdi12Error::InvalidCommandIndex(e)),
    }
}

pub open spec fn pow10(n: nat) -> nat
    decreases n,
{
    if n == 0 {
        1
    } else {
        10 * pow10((n - 1) as nat)
    }
}

/// A string of `n` digits has a value below 10^n.
pub proof fn lemma_digits_bound(s: Seq<u8>)
    requires
        all_digits(s),
    ensures
        digits_value(s) < pow10(s.len()),
    decreases s.len(),
{
    if s.len() > 0 {
        let t = s.drop_last();
        assert(all_digits(t)) by {
            assert forall|i: int| 0 <= i < t.len() implies is_digit(#[trigger] t[i]) by {
                assert(t[i] == s[i]);
            }
        }
        lemma_digits_bound(t);
        assert(is_digit(s[s.len() - 1]));
        let d = (s.last() - 48) as nat;
        let v = digits_value(t);
        let p = pow10(t.len());
        assert(v * 10 + d < 10 * p) by (nonlinear_arith)
            requires
                v < p,
                d <= 9,
        ;
    }
}

/// Position of the first `x` in `s`, or its length.
fn find_byte(s: &[u8], x: u8) -> (r: usize)
    ensures
        r == index_of(s@, x),
        r <= s@.len(),
{
    let mut i: usize = 0;
    while i < s.len()
        invariant
            i <= s@.len(),
            forall|j: int| 0 <= j < i ==> s@[j] != x,
        decreases s@.len() - i,
    {
        if s[i] == x {
            proof {
                lemma_index_of(s@, x, i as int);
            }
            return i;
        }
        i = i + 1;
    }
    proof {
        lemma_index_of(s@, x, i as int);
    }
    i
}

/// `index_of` is the first position of `x`.
pub proof fn lemma_index_of(s: Seq<u8>, x: u8, k: int)
    requires
        0 <= k <= s.len(),
        forall|j: int| 0 <= j < k ==> s[j] != x,
        k < s.len() ==> s[k] == x,
    ensures
        index_of(s, x) == k,
    decreases s.len(),
{
    if s.len() > 0 && s[0] != x {
        let t = s.subrange(1, s.len() as int);
        assert forall|j: int| 0 <= j < k - 1 implies t[j] != x by {
            assert(t[j] == s[j + 1]);
        }
        lemma_index_of(t, x, k - 1);
    }
}

fn identify_main(main: &[u8]) -> (r: Option<(IdentifyCode, Option<u8>)>)
    ensures
        r == identify_main_spec(main@),
{
    let n = main.len();
    if n >= 2 && main[0] == 'I' as u8 && (main[1] == 'M' as u8 || main[1] == 'C' as u8 || main[1]
        == 'R' as u8) {
        let long = n >= 3 && main[2] == 'C' as u8;
        let code_len: usize = if long {
            3
        } else {
            2
        };
        let code = if main[1] == 'M' as u8 {
            if long {
                IdentifyCode::MC
            } else {
                IdentifyCode::M
            }
        } else if main[1] == 'C' as u8 {
            if long {
                IdentifyCode::CC
            } else {
                IdentifyCode::C
            }
        } else {
            if long {
                IdentifyCode::RC
            } else {
                IdentifyCode::R
            }
        };
        if n == code_len {
            Some((code, None))
        } else if n == code_len + 1 && byte_is_digit(main[code_len]) {
            Some((code, Some(main[code_len] - 48)))
        } else {
            None
        }
    } else if eq2(main, 'I' as u8, 'V' as u8) {
        Some((IdentifyCode::V, None))
    } else if eq3(main, 'I' as u8, 'H' as u8, 'A' as u8) {
        Some((IdentifyCode::HA, None))
    } else if eq3(main, 'I' as u8, 'H' as u8, 'B' as u8) {
        Some((IdentifyCode::HB, None))
    } else {
        None
    }
}

fn m_index(d: Option<u8>) -> (r: Option<MeasurementIndex>)
    ensures
        r == m_index_of(d),
{
    match d {
        None => Some(MeasurementIndex::Base),
        Some(d) => if 1 <= d && d <= 9 {
            Some(MeasurementIndex::Indexed(d))
        } else {
            None
        },
    }
}

fn identify_plain(address: Sdi12Addr, code: IdentifyCode, d: Option<u8>) -> (r: Result<
    Command,
    Sdi12Error<()>,
>)
    ensures
        r == identify_plain_spec(address, code, d),
{
    match code {
        IdentifyCode::V => Ok(
            Command::IdentifyMeasurement(IdentifyMeasurementCommand::Verification { address }),
        ),
        IdentifyCode::HA => Ok(
            Command::IdentifyMeasurement(IdentifyMeasurementCommand::HighVolumeASCII { address }),
        ),
        IdentifyCode::HB => Ok(
            Command::IdentifyMeasurement(IdentifyMeasurementCommand::HighVolumeBinary { address }),
        ),
        IdentifyCode::R | IdentifyCode::RC => Err(Sdi12Error::InvalidFormat),
        _ => match m_index(d) {
            None => Err(Sdi12Error::InvalidCommandIndex(CommandIndexError::MeasurementOutOfRange)),
            Some(index) => {
                let c = match code {
                    IdentifyCode::M => IdentifyMeasurementCommand::Measurement { address, index },
                    IdentifyCode::MC => IdentifyMeasurementCommand::MeasurementCRC { address, index },
                    IdentifyCode::C => IdentifyMeasurementCommand::ConcurrentMeasurement {
                        address,
                        index,
                    },
                    _ => IdentifyMeasurementCommand::ConcurrentMeasurementCRC { address, index },
                };
                Ok(Command::IdentifyMeasurement(c))
            },
        },
    }
}

fn identify_param(
    address: Sdi12Addr,
    code: IdentifyCode,
    d: Option<u8>,
    param_index: IdentifyParameterIndex,
) -> (r: Result<Command, Sdi12Error<()>>)
    requires
        d matches Some(x) ==> x <= 9,
    ensures
        r == identify_param_spec(address, code, d, param_index),
{
    match code {
        IdentifyCode::V => Ok(
            Command::IdentifyMeasurementParameter(
                IdentifyMeasurementParameterCommand::Verification { address, param_index },
            ),
        ),
        IdentifyCode::HA => Ok(
            Command::IdentifyMeasurementParameter(
                IdentifyMeasurementParameterCommand::HighVolumeASCII { address, param_index },
            ),
        ),
        IdentifyCode::HB => Ok(
            Command::IdentifyMeasurementParameter(
                IdentifyMeasurementParameterCommand::HighVolumeBinary { address, param_index },
            ),
        ),
        IdentifyCode::R | IdentifyCode::RC => match d {
            None => Err(Sdi12Error::InvalidFormat),
            Some(d) => {
                let r_index = match ContinuousIndex::new(d) {
                    Ok(r_index) => r_index,
                    Err(e) => {
                        return Err(Sdi12Error::InvalidCommandIndex(e));
                    },
                };
                let c = if code == IdentifyCode::R {
                    IdentifyMeasurementParameterCommand::ReadContinuous {
                        address,
                        r_index,
                        param_index,
                    }
                } else {
                    IdentifyMeasurementParameterCommand::ReadContinuousCRC {
                        address,
                        r_index,
                        param_index,
                    }
                };
                Ok(Command::IdentifyMeasurementParameter(c))
            },
        },
        _ => match m_index(d) {
            None => Err(Sdi12Error::InvalidCommandIndex(CommandIndexError::MeasurementOutOfRange)),
            Some(m) => {
                let c = match code {
                    IdentifyCode::M => IdentifyMeasurementParameterCommand::Measurement {
                        address,
                        m_index: m,
                        param_index,
                    },
                    IdentifyCode::MC => IdentifyMeasurementParameterCommand::MeasurementCRC {
                        address,
                        m_index: m,
                        param_index,
                    },
                    IdentifyCode::C => IdentifyMeasurementParameterCommand::ConcurrentMeasurement {
                        address,
                        c_index: m,
                        param_index,
                    },
                    _ => IdentifyMeasurementParameterCommand::ConcurrentMeasurementCRC {
                        address,
                        c_index: m,
                        param_index,
                    },
                };
                Ok(Command::IdentifyMeasurementParameter(c))
            },
        },
    }
}

/// Parses the identify-measurement and identify-parameter commands.
fn parse_identify_command(address: Sdi12Addr, body: &[u8]) -> (r: Result<
    Command,
    Sdi12Error<()>,
>)
    ensures
        r == identify_spec(address, body@),
{
    let n = body.len();
    let k = find_byte(body, '_' as u8);
    let main = slice_subrange(body, 0, k);
    match identify_main(main) {
        None => Err(Sdi12Error::InvalidFormat),
        Some((code, d)) => {
            if k < n {
                let param = slice_subrange(body, k + 1, n);
                if param.len() != 3 || !are_digits(param) {
                    return Err(Sdi12Error::InvalidFormat);
                }
                let v = digits_value_capped(param);
                proof {
                    lemma_digits_bound(param@);
                    assert(pow10(0) == 1);
                    assert(pow10(1) == 10);
                    assert(pow10(2) == 100);
                    assert(pow10(3) == 1000);
                }
                match IdentifyParameterIndex::new(v as u16) {
                    Ok(p) => identify_param(address, code, d, p),
                    Err(e) => Err(Sdi12Error::InvalidCommandIndex(e)),
                }
            } else {
                identify_plain(address, code, d)
            }
        },
    }
}

/// Parses command bytes, from the address to the terminating `!`, into a
/// `Command`. A body that is not ASCII is rejected.
pub fn parse_command(bytes: &[u8]) -> (r: Result<Command, Sdi12Error<()>>)
    ensures
        parse_matches(r, parse_command_spec(bytes@), bytes@),
{
    let n = bytes.len();
    if n < 2 || bytes[n - 1] != '!' as u8 {
        return Err(Sdi12Error::InvalidFormat);
    }
    let address = match Sdi12Addr::new(bytes[0] as char) {
        Ok(a) => a,
        Err(e) => {
            return Err(e);
        },
    };
    let body = slice_subrange(bytes, 1, n - 1);
    if address.is_query() {
        if body.len() == 0 {
            return Ok(Command::AddressQuery);
        } else {
            return Err(Sdi12Error::InvalidFormat);
        }
    }
    if !are_ascii(body) {
        return Err(Sdi12Error::InvalidFormat);
    }
    let m = body.len();
    if m == 0 {
        Ok(Command::AcknowledgeActive { address })
    } else if eq1(body, 'I' as u8) {
        Ok(Command::SendIdentification { address })
    } else if eq1(body, 'V' as u8) {
        Ok(Command::StartVerification { address })
    } else if eq2(body, 'H' as u8, 'A' as u8) {
        Ok(Command::StartHighVolumeASCII { address })
    } else if eq2(body, 'H' as u8, 'B' as u8) {
        Ok(Command::StartHighVolumeBinary { address })
    } else if body[0] == 'A' as u8 && m == 2 {
        match Sdi12Addr::new(body[1] as char) {
            Ok(new_address) => Ok(Command::ChangeAddress { address, new_address }),
            Err(e) => Err(e),
        }
    } else if body[0] == 'M' as u8 || body[0] == 'C' as u8 {
        parse_measurement_command(address, body)
    } else if body[0] == 'D' as u8 {
        parse_data_command(address, body)
    } else if body[0] == 'R' as u8 {
        parse_continuous_command(address, body)
    } else if body[0] == 'I' as u8 {
        parse_identify_command(address, body)
    } else if m >= 2 {
        Ok(Command::ExtendedCommand { address, command_body: string_from_ascii(body) })
    } else {
        Err(Sdi12Error::InvalidFormat)
    }
}


// ---- Round trip ----

/// The values a well-formed measurement index, parameter index, continuous
/// index and address can take, as their constructors allow.
pub open spec fn m_index_ok(i: MeasurementIndex) -> bool {
    i.wf()
}

pub open spec fn p_index_ok(p: IdentifyParameterIndex) -> bool {
    1 <= p@ && p@ <= 999
}

pub open spec fn r_index_ok(r: ContinuousIndex) -> bool {
    r@ <= 9
}

/// A command as its constructors can build it, sent to a sensor address
/// (the query marker only in the address query).
pub open spec fn command_wf(c: Command) -> bool {
    &&& (!(c is AddressQuery) ==> address_char(c.spec_address()))
    &&& match c {
        Command::ChangeAddress { new_address, .. } => addr_value_ok(new_address@),
        Command::StartMeasurement { index, .. } => m_index_ok(index),
        Command::StartMeasurementCRC { index, .. } => m_index_ok(index),
        Command::StartConcurrentMeasurement { index, .. } => m_index_ok(index),
        Command::StartConcurrentMeasurementCRC { index, .. } => m_index_ok(index),
        Command::SendData { index, .. } => index@ <= 999,
        Command::SendBinaryData { index, .. } => index@ <= 999,
        Command::ReadContinuous { index, .. } => r_index_ok(index),
        Command::ReadContinuousCRC { index, .. } => r_index_ok(index),
        Command::IdentifyMeasurement(m) => match m {
            IdentifyMeasurementCommand::Measurement { index, .. } => m_index_ok(index),
            IdentifyMeasurementCommand::MeasurementCRC { index, .. } => m_index_ok(index),
            IdentifyMeasurementCommand::ConcurrentMeasurement { index, .. } => m_index_ok(index),
            IdentifyMeasurementCommand::ConcurrentMeasurementCRC { index, .. } => m_index_ok(index),
            _ => true,
        },
        Command::IdentifyMeasurementParameter(m) => match m {
            IdentifyMeasurementParameterCommand::Measurement { m_index, param_index, .. } =>
                m_index_ok(m_index) && p_index_ok(param_index),
            IdentifyMeasurementParameterCommand::MeasurementCRC { m_index, param_index, .. } =>
                m_index_ok(m_index) && p_index_ok(param_index),
            IdentifyMeasurementParameterCommand::Verification { param_index, .. } => p_index_ok(
                param_index,
            ),
            IdentifyMeasurementParameterCommand::ConcurrentMeasurement {
                c_index,
                param_index,
                ..
            } => m_index_ok(c_index) && p_index_ok(param_index),
            IdentifyMeasurementParameterCommand::ConcurrentMeasurementCRC {
                c_index,
                param_index,
                ..
            } => m_index_ok(c_index) && p_index_ok(param_index),
            IdentifyMeasurementParameterCommand::ReadContinuous { r_index, param_index, .. } =>
                r_index_ok(r_index) && p_index_ok(param_index),
            IdentifyMeasurementParameterCommand::ReadContinuousCRC {
                r_index,
                param_index,
                ..
            } => r_index_ok(r_index) && p_index_ok(param_index),
            IdentifyMeasurementParameterCommand::HighVolumeASCII { param_index, .. } => p_index_ok(
                param_index,
            ),
            IdentifyMeasurementParameterCommand::HighVolumeBinary { param_index, .. } => p_index_ok(
                param_index,
            ),
        },
        _ => true,
    }
}

pub(crate) proof fn lemma_digits_value_push(t: Seq<u8>, x: u8)
    requires
        is_digit(x),
    ensures
        digits_value(t.push(x)) == digits_value(t) * 10 + (x - 48) as nat,
        digits_value(Seq::<u8>::empty()) == 0,
{
    assert(t.push(x).drop_last() =~= t);
}

/// The decimal form of `n` is a digit string worth `n`.
pub proof fn lemma_decimal(n: nat)
    ensures
        decimal(n).len() >= 1,
        all_digits(decimal(n)),
        digits_value(decimal(n)) == n,
        n < 10 ==> decimal(n) == seq![digit_byte(n)],
    decreases n,
{
    if n < 10 {
        lemma_digits_value_push(Seq::<u8>::empty(), digit_byte(n));
        assert(Seq::<u8>::empty().push(digit_byte(n)) =~= decimal(n));
    } else {
        lemma_decimal(n / 10);
        let t = decimal(n / 10);
        let s = decimal(n);
        assert(s.drop_last() =~= t);
        assert(s.last() == digit_byte(n % 10));
        assert(s =~= t.push(digit_byte(n % 10)));
        lemma_digits_value_push(t, digit_byte(n % 10));
        assert((n / 10) * 10 + n % 10 == n);
        assert forall|i: int| 0 <= i < s.len() implies is_digit(#[trigger] s[i]) by {
            if i < t.len() {
                assert(s[i] == t[i]);
            }
        }
    }
}

/// The three-digit form of `n` is a digit string worth `n`.
pub proof fn lemma_decimal3(n: nat)
    requires
        n < 1000,
    ensures
        decimal3(n).len() == 3,
        all_digits(decimal3(n)),
        digits_value(decimal3(n)) == n,
{
    let s = decimal3(n);
    assert(s.drop_last().drop_last().drop_last() =~= Seq::<u8>::empty());
    assert(s.drop_last().drop_last() =~= seq![digit_byte(n / 100)]);
    assert(s.drop_last() =~= seq![digit_byte(n / 100), digit_byte((n / 10) % 10)]);
    let e = Seq::<u8>::empty();
    let s1 = e.push(digit_byte(n / 100));
    let s2 = s1.push(digit_byte((n / 10) % 10));
    assert(s =~= s2.push(digit_byte(n % 10)));
    lemma_digits_value_push(e, digit_byte(n / 100));
    lemma_digits_value_push(s1, digit_byte((n / 10) % 10));
    lemma_digits_value_push(s2, digit_byte(n % 10));
    assert(digits_value(s) == ((n / 100) * 10 + (n / 10) % 10) * 10 + n % 10);
    assert(((n / 100) * 10 + (n / 10) % 10) * 10 + n % 10 == n);
}

/// The byte of a sensor address reads back as that address.
pub proof fn lemma_addr_byte(a: Sdi12Addr)
    requires
        addr_value_ok(a@),
    ensures
        (addr_byte(a) as char) == a@,
        addr_byte(a) < 128,
        Sdi12Addr::spec_from_char(addr_byte(a) as char) == a,
{
    Sdi12Addr::lemma_from_char(a@);
    Sdi12Addr::lemma_view_eq(Sdi12Addr::spec_from_char(a@), a);
}

/// Reading back the body of a measurement-type command (code `code`,
/// index `i`).
proof fn lemma_m_body(code: Seq<u8>, i: MeasurementIndex)
    requires
        m_index_ok(i),
    ensures
        ({
            let b = code + m_suffix(i);
            &&& b.len() == code.len() + (if i is Base { 0int } else { 1int })
            &&& i matches MeasurementIndex::Indexed(d) ==> b[code.len() as int] == digit_byte(
                d as nat,
            ) && is_digit(b[code.len() as int]) && b.subrange(0, code.len() as int) == code
            &&& i is Base ==> b == code
        }),
{
    let b = code + m_suffix(i);
    match i {
        MeasurementIndex::Base => {
            assert(b =~= code);
        },
        MeasurementIndex::Indexed(d) => {
            lemma_decimal(d as nat);
            assert(b.subrange(0, code.len() as int) =~= code);
        },
    }
}

/// The body of a well-formed identify command reads back as that command.
proof fn lemma_identify_round_trip(c: Command)
    requires
        command_wf(c),
        c is IdentifyMeasurement || c is IdentifyMeasurementParameter,
    ensures
        identify_spec(c.sender(), c.body()) == Ok::<Command, Sdi12Error<()>>(c),
{
    let a = c.sender();
    let body = c.body();
    let u = ('_' as u8);
    match c {
        Command::IdentifyMeasurement(m) => {
            assert forall|j: int| 0 <= j < body.len() implies body[j] != u by {
                match m {
                    IdentifyMeasurementCommand::Measurement { index, .. } => { lemma_m_body(seq![('I' as u8), ('M' as u8)], index); },
                    IdentifyMeasurementCommand::MeasurementCRC { index, .. } => { lemma_m_body(seq![('I' as u8), ('M' as u8), ('C' as u8)], index); },
                    IdentifyMeasurementCommand::ConcurrentMeasurement { index, .. } => { lemma_m_body(seq![('I' as u8), ('C' as u8)], index); },
                    IdentifyMeasurementCommand::ConcurrentMeasurementCRC { index, .. } => { lemma_m_body(seq![('I' as u8), ('C' as u8), ('C' as u8)], index); },
                    _ => {},
                }
            }
            lemma_index_of(body, u, body.len() as int);
            assert(body.subrange(0, body.len() as int) =~= body);
            match m {
                IdentifyMeasurementCommand::Measurement { index, .. } => { lemma_m_body(seq![('I' as u8), ('M' as u8)], index); },
                IdentifyMeasurementCommand::MeasurementCRC { index, .. } => { lemma_m_body(seq![('I' as u8), ('M' as u8), ('C' as u8)], index); },
                IdentifyMeasurementCommand::ConcurrentMeasurement { index, .. } => { lemma_m_body(seq![('I' as u8), ('C' as u8)], index); },
                IdentifyMeasurementCommand::ConcurrentMeasurementCRC { index, .. } => { lemma_m_body(seq![('I' as u8), ('C' as u8), ('C' as u8)], index); },
                IdentifyMeasurementCommand::Verification { .. } => {
                    assert(body =~= seq![('I' as u8), ('V' as u8)]);
                },
                IdentifyMeasurementCommand::HighVolumeASCII { .. } => {
                    assert(body =~= seq![('I' as u8), ('H' as u8), ('A' as u8)]);
                },
                IdentifyMeasurementCommand::HighVolumeBinary { .. } => {
                    assert(body =~= seq![('I' as u8), ('H' as u8), ('B' as u8)]);
                },
            }
        },
        Command::IdentifyMeasurementParameter(m) => {
            let p = m.param();
            lemma_decimal3(p@ as nat);
            let main = m.main_part();
            assert(body =~= main + param_suffix(p));
            assert forall|j: int| 0 <= j < main.len() implies main[j] != u by {
                match m {
                    IdentifyMeasurementParameterCommand::Measurement { m_index, .. } => { lemma_m_body(seq![('I' as u8), ('M' as u8)], m_index); },
                    IdentifyMeasurementParameterCommand::MeasurementCRC { m_index, .. } => { lemma_m_body(seq![('I' as u8), ('M' as u8), ('C' as u8)], m_index); },
                    IdentifyMeasurementParameterCommand::ConcurrentMeasurement { c_index, .. } => { lemma_m_body(seq![('I' as u8), ('C' as u8)], c_index); },
                    IdentifyMeasurementParameterCommand::ConcurrentMeasurementCRC { c_index, .. } => { lemma_m_body(seq![('I' as u8), ('C' as u8), ('C' as u8)], c_index); },
                    IdentifyMeasurementParameterCommand::ReadContinuous { r_index, .. } => { lemma_decimal(r_index@ as nat); },
                    IdentifyMeasurementParameterCommand::ReadContinuousCRC { r_index, .. } => { lemma_decimal(r_index@ as nat); },
                    _ => {},
                }
                assert(body[j] == main[j]);
            }
            assert(body[main.len() as int] == u);
            lemma_index_of(body, u, main.len() as int);
            assert(body.subrange(0, main.len() as int) =~= main);
            assert(body.subrange(main.len() as int + 1, body.len() as int) =~= decimal3(p@ as nat));
            IdentifyParameterIndex::lemma_view(p, IdentifyParameterIndex::spec_new(p@), p@);
            match m {
                IdentifyMeasurementParameterCommand::Measurement { m_index, .. } => { lemma_m_body(seq![('I' as u8), ('M' as u8)], m_index); },
                IdentifyMeasurementParameterCommand::MeasurementCRC { m_index, .. } => { lemma_m_body(seq![('I' as u8), ('M' as u8), ('C' as u8)], m_index); },
                IdentifyMeasurementParameterCommand::ConcurrentMeasurement { c_index, .. } => { lemma_m_body(seq![('I' as u8), ('C' as u8)], c_index); },
                IdentifyMeasurementParameterCommand::ConcurrentMeasurementCRC { c_index, .. } => { lemma_m_body(seq![('I' as u8), ('C' as u8), ('C' as u8)], c_index); },
                IdentifyMeasurementParameterCommand::ReadContinuous { r_index, .. } => {
                    lemma_decimal(r_index@ as nat);
                    ContinuousIndex::lemma_view(r_index, ContinuousIndex::spec_new(r_index@), r_index@);
                },
                IdentifyMeasurementParameterCommand::ReadContinuousCRC { r_index, .. } => {
                    lemma_decimal(r_index@ as nat);
                    ContinuousIndex::lemma_view(r_index, ContinuousIndex::spec_new(r_index@), r_index@);
                },
                IdentifyMeasurementParameterCommand::Verification { .. } => {
                    assert(main =~= seq![('I' as u8), ('V' as u8)]);
                },
                IdentifyMeasurementParameterCommand::HighVolumeASCII { .. } => {
                    assert(main =~= seq![('I' as u8), ('H' as u8), ('A' as u8)]);
                },
                IdentifyMeasurementParameterCommand::HighVolumeBinary { .. } => {
                    assert(main =~= seq![('I' as u8), ('H' as u8), ('B' as u8)]);
                },
            }
        },
        _ => {},
    }
}

/// The body of a well-formed standard command is ASCII.
proof fn lemma_body_ascii(c: Command)
    requires
        command_wf(c),
        !(c is ExtendedCommand),
    ensures
        ascii_bytes(c.body()),
{
    let b = c.body();
    match c {
        Command::ChangeAddress { new_address, .. } => {
            lemma_addr_byte(new_address);
        },
        Command::IdentifyMeasurementParameter(m) => {
            lemma_decimal3(m.param()@ as nat);
            assert(b =~= m.main_part() + param_suffix(m.param()));
            lemma_main_part_ascii(m);
            lemma_ascii_concat(m.main_part(), param_suffix(m.param()));
        },
        Command::IdentifyMeasurement(m) => {
            match m {
                IdentifyMeasurementCommand::Measurement { index, .. } => lemma_m_ascii(seq![('I' as u8), ('M' as u8)], index),
                IdentifyMeasurementCommand::MeasurementCRC { index, .. } => lemma_m_ascii(seq![('I' as u8), ('M' as u8), ('C' as u8)], index),
                IdentifyMeasurementCommand::ConcurrentMeasurement { index, .. } => lemma_m_ascii(seq![('I' as u8), ('C' as u8)], index),
                IdentifyMeasurementCommand::ConcurrentMeasurementCRC { index, .. } => lemma_m_ascii(seq![('I' as u8), ('C' as u8), ('C' as u8)], index),
                _ => {},
            }
        },
        Command::StartMeasurement { index, .. } => lemma_m_ascii(seq![('M' as u8)], index),
        Command::StartMeasurementCRC { index, .. } => lemma_m_ascii(seq![('M' as u8), ('C' as u8)], index),
        Command::StartConcurrentMeasurement { index, .. } => lemma_m_ascii(seq![('C' as u8)], index),
        Command::StartConcurrentMeasurementCRC { index, .. } => lemma_m_ascii(seq![('C' as u8), ('C' as u8)], index),
        Command::SendData { index, .. } => lemma_d_ascii(seq![('D' as u8)], index@ as nat),
        Command::SendBinaryData { index, .. } => lemma_d_ascii(seq![('D' as u8), ('B' as u8)], index@ as nat),
        Command::ReadContinuous { index, .. } => lemma_d_ascii(seq![('R' as u8)], index@ as nat),
        Command::ReadContinuousCRC { index, .. } => lemma_d_ascii(seq![('R' as u8), ('C' as u8)], index@ as nat),
        _ => {},
    }
}

proof fn lemma_ascii_concat(x: Seq<u8>, y: Seq<u8>)
    requires
        ascii_bytes(x),
        ascii_bytes(y),
    ensures
        ascii_bytes(x + y),
{
    assert forall|i: int| 0 <= i < (x + y).len() implies #[trigger] (x + y)[i] < 128 by {
        if i < x.len() {
            assert((x + y)[i] == x[i]);
        } else {
            assert((x + y)[i] == y[i - x.len()]);
        }
    }
}

proof fn lemma_digits_ascii(s: Seq<u8>)
    requires
        all_digits(s),
    ensures
        ascii_bytes(s),
{
    assert forall|i: int| 0 <= i < s.len() implies #[trigger] s[i] < 128 by {
        assert(is_digit(s[i]));
    }
}

proof fn lemma_m_ascii(code: Seq<u8>, i: MeasurementIndex)
    requires
        ascii_bytes(code),
        m_index_ok(i),
    ensures
        ascii_bytes(code + m_suffix(i)),
{
    if let MeasurementIndex::Indexed(d) = i {
        lemma_decimal(d as nat);
        lemma_digits_ascii(m_suffix(i));
    }
    lemma_ascii_concat(code, m_suffix(i));
}

proof fn lemma_d_ascii(code: Seq<u8>, n: nat)
    requires
        ascii_bytes(code),
    ensures
        ascii_bytes(code + decimal(n)),
{
    lemma_decimal(n);
    lemma_digits_ascii(decimal(n));
    lemma_ascii_concat(code, decimal(n));
}

proof fn lemma_main_part_ascii(m: IdentifyMeasurementParameterCommand)
    requires
        command_wf(Command::IdentifyMeasurementParameter(m)),
    ensures
        ascii_bytes(m.main_part()),
        ascii_bytes(param_suffix(m.param())),
{
    lemma_decimal3(m.param()@ as nat);
    lemma_digits_ascii(decimal3(m.param()@ as nat));
    lemma_ascii_concat(seq![('_' as u8)], decimal3(m.param()@ as nat));
    match m {
        IdentifyMeasurementParameterCommand::Measurement { m_index, .. } => lemma_m_ascii(seq![('I' as u8), ('M' as u8)], m_index),
        IdentifyMeasurementParameterCommand::MeasurementCRC { m_index, .. } => lemma_m_ascii(seq![('I' as u8), ('M' as u8), ('C' as u8)], m_index),
        IdentifyMeasurementParameterCommand::ConcurrentMeasurement { c_index, .. } => lemma_m_ascii(seq![('I' as u8), ('C' as u8)], c_index),
        IdentifyMeasurementParameterCommand::ConcurrentMeasurementCRC { c_index, .. } => lemma_m_ascii(seq![('I' as u8), ('C' as u8), ('C' as u8)], c_index),
        IdentifyMeasurementParameterCommand::ReadContinuous { r_index, .. } => lemma_d_ascii(seq![('I' as u8), ('R' as u8)], r_index@ as nat),
        IdentifyMeasurementParameterCommand::ReadContinuousCRC { r_index, .. } => lemma_d_ascii(seq![('I' as u8), ('R' as u8), ('C' as u8)], r_index@ as nat),
        _ => {},
    }
}

/// The body of a well-formed standard command sent to a sensor reads back as
/// that command.
#[verifier::rlimit(60)]
#[verifier::spinoff_prover]
proof fn lemma_body_round_trip(c: Command)
    requires
        command_wf(c),
        !(c is ExtendedCommand),
        !(c is AddressQuery),
    ensures
        body_spec(c.sender(), c.body()) == ParsedCommand::Standard(c),
{
    let body = c.body();
    let a = c.sender();
    match c {
        Command::ChangeAddress { new_address, .. } => {
            lemma_addr_byte(new_address);
            assert(body =~= seq![('A' as u8), addr_byte(new_address)]);
        },
        Command::StartMeasurement { index, .. } => { lemma_m_body(seq![('M' as u8)], index); },
        Command::StartMeasurementCRC { index, .. } => { lemma_m_body(seq![('M' as u8), ('C' as u8)], index); },
        Command::StartConcurrentMeasurement { index, .. } => { lemma_m_body(seq![('C' as u8)], index); },
        Command::StartConcurrentMeasurementCRC { index, .. } => { lemma_m_body(seq![('C' as u8), ('C' as u8)], index); },
        Command::SendData { index, .. } => {
            lemma_decimal(index@ as nat);
            assert(body.subrange(1, body.len() as int) =~= decimal(index@ as nat));
            DataIndex::lemma_view(index, DataIndex::spec_new(index@), index@);
        },
        Command::SendBinaryData { index, .. } => {
            lemma_decimal(index@ as nat);
            assert(body.subrange(2, body.len() as int) =~= decimal(index@ as nat));
            DataIndex::lemma_view(index, DataIndex::spec_new(index@), index@);
        },
        Command::ReadContinuous { index, .. } => {
            lemma_decimal(index@ as nat);
            assert(body.subrange(1, body.len() as int) =~= decimal(index@ as nat));
            ContinuousIndex::lemma_view(index, ContinuousIndex::spec_new(index@), index@);
        },
        Command::ReadContinuousCRC { index, .. } => {
            lemma_decimal(index@ as nat);
            assert(body.subrange(2, body.len() as int) =~= decimal(index@ as nat));
            ContinuousIndex::lemma_view(index, ContinuousIndex::spec_new(index@), index@);
        },
        Command::IdentifyMeasurement(m) => {
            lemma_identify_round_trip(c);
        },
        Command::IdentifyMeasurementParameter(m) => {
            lemma_identify_round_trip(c);
        },
        _ => {},
    }
}

/// For every well-formed command other than an extended one, parsing the
/// bytes that `format_into` produces gives back the same command, with the
/// same variant and indices.
pub proof fn lemma_command_round_trip(c: Command)
    requires
        command_wf(c),
        !(c is ExtendedCommand),
    ensures
        parse_command_spec(c.wire()) == ParsedCommand::Standard(c),
{
    let w = c.wire();
    let body = c.body();
    assert(w.subrange(1, w.len() - 1) =~= body);
    assert(w.last() == ('!' as u8));
    if c is AddressQuery {
        assert(w[0] == ('?' as u8));
    } else {
        let a = c.sender();
        assert(a@ == c.spec_address());
        lemma_addr_byte(a);
        assert(w[0] == addr_byte(a));
        lemma_body_ascii(c);
        lemma_body_round_trip(c);
    }
}


/// Parsing the wire form of an extended command gives back an extended
/// command with the same address and text, for every ASCII text that the
/// parser reads as an extended body (two or more characters that do not
/// start like a standard command).
pub proof fn lemma_extended_round_trip(c: Command)
    requires
        c matches Command::ExtendedCommand { address, command_body } && address_char(address@)
            && is_ascii_chars(command_body@) && body_spec(address, encode_utf8(command_body@))
            == ParsedCommand::Extended(address),
    ensures
        c matches Command::ExtendedCommand { address, command_body } && parse_command_spec(c.wire())
            == ParsedCommand::Extended(address) && ascii_chars(
            c.wire().subrange(1, c.wire().len() - 1),
        ) == command_body@,
{
    if let Command::ExtendedCommand { address, command_body } = c {
        let w = c.wire();
        let e = encode_utf8(command_body@);
        is_ascii_chars_encode_utf8(command_body@);
        assert(w.subrange(1, w.len() - 1) =~= e);
        lemma_addr_byte(address);
        assert(ascii_bytes(e)) by {
            assert forall|i: int| 0 <= i < e.len() implies #[trigger] e[i] < 128 by {
                assert(command_body@[i] as u8 == e[i]);
                assert('\0' <= command_body@[i] <= '\u{7f}');
            }
        }
        assert(ascii_chars(e) =~= command_body@) by {
            assert forall|i: int| 0 <= i < e.len() implies #[trigger] ascii_chars(e)[i]
                == command_body@[i] by {
                assert(command_body@[i] as u8 == e[i]);
                assert('\0' <= command_body@[i] <= '\u{7f}');
            }
        }
    }
}

} // verus!
