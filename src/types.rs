//! Data values and high-volume binary data types.

use vstd::prelude::*;
use vstd::string::StringSliceAdditionalSpecFns;

use crate::parser::{digits_value, index_of, is_digit};

verus! {

/// One `<values>` field of a D or R response: `mantissa / 10^decimals`.
/// `+1.23` holds mantissa 123 and 2 decimals.
#[derive(Debug, Copy, Clone, PartialEq, Eq, Structural)]
pub struct Sdi12Value {
    pub mantissa: i32,
    pub decimals: u8,
}

/// A `<values>` field that does not parse.
#[derive(Debug, Copy, Clone, PartialEq, Eq, Structural)]
pub enum Sdi12ParsingError {
    /// Empty, or longer than nine characters.
    InvalidFormat,
    /// The first character is not `+` or `-`.
    InvalidSign,
    /// A second `.`.
    MultipleDecimals,
    /// A character other than a digit or `.` after the sign.
    InvalidCharacter,
    /// No digit, or more than seven.
    InvalidDigitCount,
    /// The number part could not be read.
    ParseFloatError,
}

/// The first fault met scanning `rest` (the part after the sign) from the
/// left, with `dot` telling whether a `.` came before.
pub open spec fn scan_fault(rest: Seq<u8>, dot: bool) -> Option<Sdi12ParsingError>
    decreases rest.len(),
{
    if rest.len() == 0 {
        None
    } else if is_digit(rest[0]) {
        scan_fault(rest.drop_first(), dot)
    } else if rest[0] == ('.' as u8) {
        if dot {
            Some(Sdi12ParsingError::MultipleDecimals)
        } else {
            scan_fault(rest.drop_first(), true)
        }
    } else {
        Some(Sdi12ParsingError::InvalidCharacter)
    }
}

/// The digits of `s`, in order.
pub open spec fn digit_string(s: Seq<u8>) -> Seq<u8>
    decreases s.len(),
{
    if s.len() == 0 {
        seq![]
    } else if is_digit(s.last()) {
        digit_string(s.drop_last()).push(s.last())
    } else {
        digit_string(s.drop_last())
    }
}

/// The number of digits after the first `.` of `s`.
pub open spec fn decimals_of(s: Seq<u8>) -> nat {
    (digit_string(s).len() - digit_string(s.subrange(0, index_of(s, ('.' as u8)))).len()) as nat
}

impl Sdi12ParsingError {
    /// The fault, in words.
    pub fn message(&self) -> (r: &'static str)
        ensures
            r == match *self {
                Sdi12ParsingError::InvalidFormat => "Invalid SDI-12 value format",
                Sdi12ParsingError::InvalidSign => "Invalid or missing sign character",
                Sdi12ParsingError::MultipleDecimals => "Multiple decimal points found",
                Sdi12ParsingError::InvalidCharacter => "Invalid character in numeric part",
                Sdi12ParsingError::InvalidDigitCount => "Invalid number of digits (must be 1-7)",
                Sdi12ParsingError::ParseFloatError => "Failed to parse numeric part as float",
            },
    {
        match self {
            Sdi12ParsingError::InvalidFormat => "Invalid SDI-12 value format",
            Sdi12ParsingError::InvalidSign => "Invalid or missing sign character",
            Sdi12ParsingError::MultipleDecimals => "Multiple decimal points found",
            Sdi12ParsingError::InvalidCharacter => "Invalid character in numeric part",
            Sdi12ParsingError::InvalidDigitCount => "Invalid number of digits (must be 1-7)",
            Sdi12ParsingError::ParseFloatError => "Failed to parse numeric part as float",
        }
    }
}

/// What `parse_single` makes of the bytes `b`.
pub open spec fn parse_value_spec(b: Seq<u8>) -> Result<Sdi12Value, Sdi12ParsingError> {
    if b.len() == 0 || b.len() > 9 {
        Err(Sdi12ParsingError::InvalidFormat)
    } else if b[0] != ('+' as u8) && b[0] != ('-' as u8) {
        Err(Sdi12ParsingError::InvalidSign)
    } else {
        let rest = b.drop_first();
        match scan_fault(rest, false) {
            Some(e) => Err(e),
            None => {
                let n = digit_string(rest).len();
                if n == 0 || n > 7 {
                    Err(Sdi12ParsingError::InvalidDigitCount)
                } else {
                    let m = digits_value(digit_string(rest)) as int;
                    Ok(
                        Sdi12Value {
                            mantissa: (if b[0] == ('-' as u8) {
                                -m
                            } else {
                                m
                            }) as i32,
                            decimals: decimals_of(rest) as u8,
                        },
                    )
                }
            },
        }
    }
}

proof fn lemma_digit_string_len(s: Seq<u8>)
    ensures
        digit_string(s).len() <= s.len(),
        forall|i: int| 0 <= i < digit_string(s).len() ==> is_digit(#[trigger] digit_string(s)[i]),
    decreases s.len(),
{
    if s.len() > 0 {
        lemma_digit_string_len(s.drop_last());
    }
}

impl Sdi12Value {
    /// Builds a value from its parts.
    pub fn from_parts(mantissa: i32, decimals: u8) -> (r: Self)
        ensures
            r.mantissa == mantissa,
            r.decimals == decimals,
    {
        Sdi12Value { mantissa, decimals }
    }

    /// Parses a single field such as `+1.23`, `-10` or `+1234567`: a sign,
    /// then one to seven digits with at most one `.`, nine characters at most.
    pub fn parse_single(s: &str) -> (r: Result<Self, Sdi12ParsingError>)
        ensures
            r == parse_value_spec(s.spec_bytes()),
    {
        parse_value(s.as_bytes())
    }
}

/// `parse_single` on bytes.
pub fn parse_value(b: &[u8]) -> (r: Result<Sdi12Value, Sdi12ParsingError>)
    ensures
        r == parse_value_spec(b@),
{
    let n = b.len();
    if n == 0 || n > 9 {
        return Err(Sdi12ParsingError::InvalidFormat);
    }
    let negative = if b[0] == '+' as u8 {
        false
    } else if b[0] == '-' as u8 {
        true
    } else {
        return Err(Sdi12ParsingError::InvalidSign);
    };
    let ghost rest = b@.drop_first();
    let mut mantissa: u32 = 0;
    let mut count: usize = 0;
    let mut count_at_dot: usize = 0;
    let mut dot = false;
    let mut dot_pos: usize = 0;
    let mut i: usize = 1;
    assert(rest.subrange(0, rest.len() as int) =~= rest);
    while i < n
        invariant
            1 <= i <= n <= 9,
            n == b@.len(),
            count_at_dot <= count,
            b@[0] == ('+' as u8) || b@[0] == ('-' as u8),
            negative == (b@[0] == ('-' as u8)),
            rest == b@.drop_first(),
            scan_fault(rest, false) == scan_fault(rest.subrange(i - 1, rest.len() as int), dot),
            count == digit_string(rest.subrange(0, i - 1)).len(),
            mantissa == digits_value(digit_string(rest.subrange(0, i - 1))),
            count <= i - 1,
            dot ==> dot_pos < i - 1 && rest[dot_pos as int] == ('.' as u8) && count_at_dot
                == digit_string(rest.subrange(0, dot_pos as int)).len(),
            dot ==> forall|j: int| 0 <= j < dot_pos ==> rest[j] != ('.' as u8),
            !dot ==> forall|j: int| 0 <= j < i - 1 ==> rest[j] != ('.' as u8),
            mantissa < crate::parser::pow10(count as nat),
        decreases n - i,
    {
        let c = b[i];
        let ghost pre = rest.subrange(0, i - 1);
        let ghost next = rest.subrange(0, i as int);
        assert(next.drop_last() =~= pre);
        assert(rest.subrange(i - 1, rest.len() as int).drop_first() =~= rest.subrange(
            i as int,
            rest.len() as int,
        ));
        assert(rest.subrange(i - 1, rest.len() as int)[0] == c);
        if 48 <= c && c <= 57 {
            proof {
                crate::parser::lemma_digits_value_push(digit_string(pre), c);
                let m = mantissa as nat;
                let p = crate::parser::pow10(count as nat);
                assert(m * 10 + ((c - 48) as nat) < 10 * p) by (nonlinear_arith)
                    requires
                        m < p,
                        ((c - 48) as nat) <= 9,
                ;
                lemma_pow10_bound(count as nat);
            }
            mantissa = mantissa * 10 + (c - 48) as u32;
            count = count + 1;
        } else if c == '.' as u8 {
            if dot {
                assert(scan_fault(rest.subrange(i - 1, rest.len() as int), dot) == Some(
                    Sdi12ParsingError::MultipleDecimals,
                ));
                return Err(Sdi12ParsingError::MultipleDecimals);
            }
            dot = true;
            dot_pos = i - 1;
            count_at_dot = count;
        } else {
            assert(scan_fault(rest.subrange(i - 1, rest.len() as int), dot) == Some(
                Sdi12ParsingError::InvalidCharacter,
            ));
            return Err(Sdi12ParsingError::InvalidCharacter);
        }
        i = i + 1;
    }
    let ghost all = rest.subrange(0, rest.len() as int);
    assert(all =~= rest);
    assert(rest.subrange(rest.len() as int, rest.len() as int) =~= Seq::<u8>::empty());
    if count == 0 || count > 7 {
        return Err(Sdi12ParsingError::InvalidDigitCount);
    }
    proof {
        if dot {
            crate::parser::lemma_index_of(rest, ('.' as u8), dot_pos as int);
        } else {
            crate::parser::lemma_index_of(rest, ('.' as u8), rest.len() as int);
        }
        lemma_pow10_bound(count as nat);
        lemma_digit_string_len(rest);
    }
    let decimals: u8 = if dot {
        (count - count_at_dot) as u8
    } else {
        0
    };
    let m = mantissa as i32;
    Ok(Sdi12Value { mantissa: if negative { -m } else { m }, decimals })
}

proof fn lemma_pow10_bound(n: nat)
    requires
        n <= 8,
    ensures
        crate::parser::pow10(n) <= 100_000_000,
        n <= 7 ==> crate::parser::pow10(n) <= 10_000_000,
{
    assert(crate::parser::pow10(0) == 1);
    assert(crate::parser::pow10(1) == 10);
    assert(crate::parser::pow10(2) == 100);
    assert(crate::parser::pow10(3) == 1000);
    assert(crate::parser::pow10(4) == 10000);
    assert(crate::parser::pow10(5) == 100000);
    assert(crate::parser::pow10(6) == 1000000);
    assert(crate::parser::pow10(7) == 10000000);
    assert(crate::parser::pow10(8) == 100000000);
}

/// Data types of high-volume binary packets.
#[derive(Debug, Copy, Clone, PartialEq, Eq, Structural)]
pub enum BinaryDataType {
    InvalidRequest,
    SignedI8,
    UnsignedU8,
    SignedI16,
    UnsignedU16,
    SignedI32,
    UnsignedU32,
    SignedI64,
    UnsignedU64,
    Float32,
    Float64,
}

/// The type with code `v` (0-10).
pub open spec fn binary_type_of(v: u8) -> Option<BinaryDataType> {
    if v == 0 {
        Some(BinaryDataType::InvalidRequest)
    } else if v == 1 {
        Some(BinaryDataType::SignedI8)
    } else if v == 2 {
        Some(BinaryDataType::UnsignedU8)
    } else if v == 3 {
        Some(BinaryDataType::SignedI16)
    } else if v == 4 {
        Some(BinaryDataType::UnsignedU16)
    } else if v == 5 {
        Some(BinaryDataType::SignedI32)
    } else if v == 6 {
        Some(BinaryDataType::UnsignedU32)
    } else if v == 7 {
        Some(BinaryDataType::SignedI64)
    } else if v == 8 {
        Some(BinaryDataType::UnsignedU64)
    } else if v == 9 {
        Some(BinaryDataType::Float32)
    } else if v == 10 {
        Some(BinaryDataType::Float64)
    } else {
        None
    }
}

impl BinaryDataType {
    /// The size in bytes of one value; 0 for `InvalidRequest`.
    pub open spec fn spec_size(self) -> nat {
        match self {
            BinaryDataType::InvalidRequest => 0,
            BinaryDataType::SignedI8 => 1,
            BinaryDataType::UnsignedU8 => 1,
            BinaryDataType::SignedI16 => 2,
            BinaryDataType::UnsignedU16 => 2,
            BinaryDataType::SignedI32 => 4,
            BinaryDataType::UnsignedU32 => 4,
            BinaryDataType::SignedI64 => 8,
            BinaryDataType::UnsignedU64 => 8,
            BinaryDataType::Float32 => 4,
            BinaryDataType::Float64 => 8,
        }
    }

    /// The type with code `value`; `None` above 10.
    pub fn from_u8(value: u8) -> (r: Option<Self>)
        ensures
            r == binary_type_of(value),
    {
        match value {
            0 => Some(BinaryDataType::InvalidRequest),
            1 => Some(BinaryDataType::SignedI8),
            2 => Some(BinaryDataType::UnsignedU8),
            3 => Some(BinaryDataType::SignedI16),
            4 => Some(BinaryDataType::UnsignedU16),
            5 => Some(BinaryDataType::SignedI32),
            6 => Some(BinaryDataType::UnsignedU32),
            7 => Some(BinaryDataType::SignedI64),
            8 => Some(BinaryDataType::UnsignedU64),
            9 => Some(BinaryDataType::Float32),
            10 => Some(BinaryDataType::Float64),
            _ => None,
        }
    }

    /// The size in bytes of one value of this type; 0 for `InvalidRequest`.
    pub fn size_in_bytes(&self) -> (r: usize)
        ensures
            r == self.spec_size(),
    {
        match self {
            BinaryDataType::InvalidRequest => 0,
            BinaryDataType::SignedI8 => 1,
            BinaryDataType::UnsignedU8 => 1,
            BinaryDataType::SignedI16 => 2,
            BinaryDataType::UnsignedU16 => 2,
            BinaryDataType::SignedI32 => 4,
            BinaryDataType::UnsignedU32 => 4,
            BinaryDataType::SignedI64 => 8,
            BinaryDataType::UnsignedU64 => 8,
            BinaryDataType::Float32 => 4,
            BinaryDataType::Float64 => 8,
        }
    }
}

} // verus!
