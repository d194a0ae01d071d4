//! Amounts of mutez, the smallest unit of account, without an upper or a lower bound.
use crate::text::{decimal, digits, is_digit, lemma_digits_read_back, signed_value, unsigned_part};
use num::{BigInt, Signed};
use std::str::FromStr;
use vstd::arithmetic::power::pow;
use vstd::prelude::*;
use vstd::string::*;

verus! {

/// A number in base 256, the least significant digit first.
pub open spec fn unsigned_le(bytes: Seq<u8>) -> nat
    decreases bytes.len(),
{
    if bytes.len() == 0 {
        0
    } else {
        bytes[0] as nat + 256 * unsigned_le(bytes.skip(1))
    }
}

/// A number in two's complement, the least significant byte first.
pub open spec fn twos_complement_le(bytes: Seq<u8>) -> int {
    if bytes.len() > 0 && bytes.last() >= 128 {
        unsigned_le(bytes) - pow(256, bytes.len())
    } else {
        unsigned_le(bytes) as int
    }
}

/// Whether a text is an amount: an optional sign, a digit, then digits and underscores.
pub open spec fn is_amount(s: Seq<char>) -> bool {
    let body = unsigned_part(s);
    &&& body.len() > 0
    &&& body[0] != '_'
    &&& forall|i: int| 0 <= i < body.len() ==> is_digit(#[trigger] body[i]) || body[i] == '_'
}

/// The amount that a text stands for.
pub open spec fn amount_of(s: Seq<char>) -> Option<int> {
    if is_amount(s) {
        Some(signed_value(s))
    } else {
        None
    }
}

/// The distance of a number from zero.
pub open spec fn magnitude(v: int) -> int {
    if v < 0 {
        -v
    } else {
        v
    }
}

/// An amount of mutez, kept as the bytes of its two's complement.
#[derive(Debug)]
pub struct Mutez {
    pub(crate) bytes: Vec<u8>,
}

impl View for Mutez {
    type V = int;

    closed spec fn view(&self) -> int {
        twos_complement_le(self.bytes@)
    }
}

/// Why a text is no amount.
#[derive(Clone, Copy, Debug, PartialEq, Eq, Structural)]
pub enum InvalidAmount {
    /// There is nothing but a sign, or nothing at all.
    Empty,
    /// There is something that does not belong into an amount.
    InvalidDigit,
}

impl InvalidAmount {
    /// What the error says.
    pub open spec fn text(&self) -> Seq<char> {
        match *self {
            InvalidAmount::Empty => "cannot parse integer from empty string"@,
            InvalidAmount::InvalidDigit => "invalid digit found in string"@,
        }
    }

    /// What the error says.
    pub fn message(&self) -> (r: String)
        ensures
            r@ == self.text(),
            *self is Empty ==> r@ == "cannot parse integer from empty string"@,
            *self is InvalidDigit ==> r@ == "invalid digit found in string"@,
    {
        match self {
            InvalidAmount::Empty => "cannot parse integer from empty string".to_owned(),
            InvalidAmount::InvalidDigit => "invalid digit found in string".to_owned(),
        }
    }
}

/// Why a text that is no amount is none.
pub open spec fn amount_refusal(s: Seq<char>) -> InvalidAmount {
    if unsigned_part(s).len() == 0 {
        InvalidAmount::Empty
    } else {
        InvalidAmount::InvalidDigit
    }
}

impl Clone for Mutez {
    fn clone(&self) -> (r: Self)
        ensures
            r@ == self@,
    {
        Mutez { bytes: self.bytes.clone() }
    }
}

impl Default for Mutez {
    fn default() -> (r: Self)
        ensures
            r@ == 0,
    {
        Mutez::zero()
    }
}

impl Mutez {
    /// No mutez at all.
    pub fn zero() -> (r: Mutez)
        ensures
            r@ == 0,
    {
        Mutez { bytes: Vec::new() }
    }

    /// Reads an amount from its decimal notation.
    pub fn parse(s: &str) -> (r: Result<Mutez, InvalidAmount>)
        ensures
            r is Ok <==> is_amount(s@),
            r matches Ok(m) ==> Some(m@) == amount_of(s@),
            r matches Err(e) ==> e == amount_refusal(s@),
            forall|v: int| s@ == #[trigger] decimal(v) ==> (r matches Ok(m) && m@ == v),
    {
        proof {
            assert forall|v: int| s@ == #[trigger] decimal(v) implies amount_of(s@) == Some(v) by {
                law_amount_text_read_back(v);
            }
        }
        match bigint_from_str(s) {
            Ok(m) => Ok(m),
            Err(text) => {
                let empty = InvalidAmount::Empty.message();
                proof {
                    reveal_strlit("cannot parse integer from empty string");
                    reveal_strlit("invalid digit found in string");
                    assert(InvalidAmount::Empty.text()[0] != InvalidAmount::InvalidDigit.text()[0]);
                }
                if text == empty {
                    Err(InvalidAmount::Empty)
                } else {
                    Err(InvalidAmount::InvalidDigit)
                }
            },
        }
    }

    /// The amount in decimal notation.
    pub fn to_text(&self) -> (r: String)
        ensures
            r@ == decimal(self@),
    {
        bigint_to_string(self)
    }

    /// The sum of two amounts.
    pub fn plus(&self, other: &Mutez) -> (r: Mutez)
        ensures
            r@ == self@ + other@,
    {
        bigint_add(self, other)
    }

    /// The difference of two amounts, without its sign.
    pub fn distance(&self, other: &Mutez) -> (r: Mutez)
        ensures
            r@ == magnitude(self@ - other@),
            r@ >= 0,
            r@ == self@ - other@ || r@ == other@ - self@,
    {
        bigint_abs(&bigint_sub(self, other))
    }

    /// Whether two amounts are the same.
    pub fn same(&self, other: &Mutez) -> (r: bool)
        ensures
            r == (self@ == other@),
    {
        bigint_eq(self, other)
    }

    /// Whether the amount is zero.
    pub fn is_zero(&self) -> (r: bool)
        ensures
            r == (self@ == 0),
    {
        bigint_eq(self, &Mutez::zero())
    }
}

/// Calls `BigInt::from_str` of the `num` crate. Trusted: it reads an optional sign followed by
/// decimal digits, lets underscores stand anywhere but before the first digit, and refuses every
/// other text. Its error says of a text without anything behind the sign that it is empty, and of
/// any other one that it holds an invalid digit.
#[verifier::external_body]
fn bigint_from_str(s: &str) -> (r: Result<Mutez, String>)
    ensures
        r is Ok <==> is_amount(s@),
        r matches Ok(m) ==> m@ == signed_value(s@),
        r matches Err(text) ==> text@ == amount_refusal(s@).text(),
{
    BigInt::from_str(s).map(|v| Mutez { bytes: v.to_signed_bytes_le() }).map_err(|e| e.to_string())
}

/// Calls `BigInt::to_string` of the `num` crate. Trusted: it writes a `-` for a negative number
/// and then the decimal digits without leading zeros.
#[verifier::external_body]
fn bigint_to_string(a: &Mutez) -> (r: String)
    ensures
        r@ == decimal(a@),
{
    BigInt::from_signed_bytes_le(&a.bytes).to_string()
}

/// Calls `BigInt::add` of the `num` crate. Trusted: it returns the exact sum.
#[verifier::external_body]
fn bigint_add(a: &Mutez, b: &Mutez) -> (r: Mutez)
    ensures
        r@ == a@ + b@,
{
    let sum = BigInt::from_signed_bytes_le(&a.bytes) + BigInt::from_signed_bytes_le(&b.bytes);
    Mutez { bytes: sum.to_signed_bytes_le() }
}

/// Calls `BigInt::sub` of the `num` crate. Trusted: it returns the exact difference.
#[verifier::external_body]
fn bigint_sub(a: &Mutez, b: &Mutez) -> (r: Mutez)
    ensures
        r@ == a@ - b@,
{
    let rest = BigInt::from_signed_bytes_le(&a.bytes) - BigInt::from_signed_bytes_le(&b.bytes);
    Mutez { bytes: rest.to_signed_bytes_le() }
}

/// Calls `Signed::abs` of the `num` crate on a `BigInt`. Trusted: it returns the number without
/// its sign.
#[verifier::external_body]
fn bigint_abs(a: &Mutez) -> (r: Mutez)
    ensures
        r@ == magnitude(a@),
{
    Mutez { bytes: BigInt::from_signed_bytes_le(&a.bytes).abs().to_signed_bytes_le() }
}

/// Calls `BigInt::eq` of the `num` crate. Trusted: it compares the two numbers.
#[verifier::external_body]
fn bigint_eq(a: &Mutez, b: &Mutez) -> (r: bool)
    ensures
        r == (a@ == b@),
{
    BigInt::from_signed_bytes_le(&a.bytes) == BigInt::from_signed_bytes_le(&b.bytes)
}

/// An amount is read back from its decimal notation.
pub proof fn law_amount_text_read_back(v: int)
    ensures
        amount_of(decimal(v)) == Some(v),
{
    let n = magnitude(v) as nat;
    lemma_digits_read_back(n);
    let s = decimal(v);
    if v < 0 {
        assert(unsigned_part(s) =~= digits(n));
    } else {
        assert(is_digit(digits(n)[0]));
        assert(unsigned_part(s) == digits(n));
    }
    assert(is_digit(digits(n)[0]));
}

} // verus!
