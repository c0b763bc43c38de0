//! Sensor addresses.

use vstd::prelude::*;

verus! {

/// True of the characters that name a sensor: `0-9`, `a-z`, `A-Z`.
pub open spec fn address_char(c: char) -> bool {
    ('0' <= c && c <= '9') || ('a' <= c && c <= 'z') || ('A' <= c && c <= 'Z')
}

/// True of the characters an `Sdi12Addr` may hold: a sensor address or the
/// query marker `?`.
pub open spec fn addr_value_ok(c: char) -> bool {
    address_char(c) || c == '?'
}

/// A validated SDI-12 address character.
#[derive(Copy, Clone, PartialEq, Eq, Structural, PartialOrd, Ord, Hash, Debug)]
pub struct Sdi12Addr(char);

impl View for Sdi12Addr {
    type V = char;

    closed spec fn view(&self) -> char {
        self.0
    }
}

impl Sdi12Addr {
    /// The address that holds `c`.
    pub closed spec fn spec_from_char(c: char) -> Sdi12Addr {
        Sdi12Addr(c)
    }

    pub proof fn lemma_from_char(c: char)
        ensures
            Self::spec_from_char(c)@ == c,
    {
    }

    #[verifier::type_invariant]
    spec fn inv(self) -> bool {
        addr_value_ok(self.0)
    }

    /// Two addresses with the same character are the same address.
    pub proof fn lemma_view_eq(a: Sdi12Addr, b: Sdi12Addr)
        ensures
            a@ == b@ <==> a == b,
    {
    }

    /// Builds an address; fails with `InvalidAddress` on any other character.
    pub fn new<E>(address_char: char) -> (r: Result<Self, crate::error::Sdi12Error<E>>)
        ensures
            addr_value_ok(address_char) <==> r is Ok,
            r matches Ok(a) ==> a@ == address_char && a == Self::spec_from_char(address_char),
            r matches Err(e) ==> e == crate::error::Sdi12Error::<E>::InvalidAddress(address_char),
    {
        if Self::is_valid_address_char(address_char) || address_char == '?' {
            Ok(Sdi12Addr(address_char))
        } else {
            Err(crate::error::Sdi12Error::InvalidAddress(address_char))
        }
    }

    /// The address used by sensors fresh from the factory.
    pub fn default_address() -> (r: Self)
        ensures
            r@ == '0',
    {
        Sdi12Addr('0')
    }

    /// The query marker `?`.
    pub fn query_address() -> (r: Self)
        ensures
            r@ == '?',
    {
        Sdi12Addr('?')
    }

    pub fn as_char(&self) -> (r: char)
        ensures
            r == self@,
            addr_value_ok(r),
    {
        proof {
            use_type_invariant(self);
        }
        self.0
    }

    pub fn is_query(&self) -> (r: bool)
        ensures
            r == (self@ == '?'),
    {
        self.0 == '?'
    }

    pub fn is_standard(&self) -> (r: bool)
        ensures
            r == ('0' <= self@ && self@ <= '9'),
    {
        '0' <= self.0 && self.0 <= '9'
    }

    pub fn is_extended(&self) -> (r: bool)
        ensures
            r == (('a' <= self@ && self@ <= 'z') || ('A' <= self@ && self@ <= 'Z')),
    {
        ('a' <= self.0 && self.0 <= 'z') || ('A' <= self.0 && self.0 <= 'Z')
    }

    pub fn is_valid_address_char(c: char) -> (r: bool)
        ensures
            r == address_char(c),
    {
        ('0' <= c && c <= '9') || ('a' <= c && c <= 'z') || ('A' <= c && c <= 'Z')
    }
}

impl Default for Sdi12Addr {
    fn default() -> (r: Self)
        ensures
            r@ == '0',
    {
        Sdi12Addr('0')
    }
}

impl TryFrom<char> for Sdi12Addr {
    type Error = crate::error::Sdi12Error<()>;

    fn try_from(value: char) -> (r: Result<Self, Self::Error>)
        ensures
            addr_value_ok(value) <==> r is Ok,
            r matches Ok(a) ==> a@ == value && a == Self::spec_from_char(value),
            r matches Err(e) ==> e == crate::error::Sdi12Error::<()>::InvalidAddress(value),
    {
        Self::new(value)
    }
}

impl vstd::std_specs::convert::TryFromSpecImpl<char> for Sdi12Addr {
    open spec fn obeys_try_from_spec() -> bool {
        true
    }

    open spec fn try_from_spec(v: char) -> Result<Self, Self::Error> {
        if addr_value_ok(v) {
            Ok(Sdi12Addr::spec_from_char(v))
        } else {
            Err(crate::error::Sdi12Error::InvalidAddress(v))
        }
    }
}

impl From<Sdi12Addr> for char {
    fn from(value: Sdi12Addr) -> (r: char) {
        value.0
    }
}

impl vstd::std_specs::convert::FromSpecImpl<Sdi12Addr> for char {
    open spec fn obeys_from_spec() -> bool {
        true
    }

    open spec fn from_spec(v: Sdi12Addr) -> char {
        v@
    }
}

} // verus!
