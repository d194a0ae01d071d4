//! Fractions of amounts and their rounding.
use crate::mutez::Mutez;
use num::{BigInt, BigRational};
use vstd::arithmetic::div_mod::lemma_div_multiples_vanish_quotient;
use vstd::prelude::*;

verus! {

/// The whole number nearest to `n / d`; half-way cases go away from zero.
pub open spec fn nearest(n: int, d: int) -> int {
    let numer = if d < 0 {
        -n
    } else {
        n
    };
    let denom = if d < 0 {
        -d
    } else {
        d
    };
    if numer >= 0 {
        (2 * numer + denom) / (2 * denom)
    } else {
        -((2 * -numer + denom) / (2 * denom))
    }
}

/// `n / d` without its fractional part, for a positive `d`.
pub open spec fn truncated(n: int, d: int) -> int {
    if n >= 0 {
        n / d
    } else {
        -(-n / d)
    }
}

/// Whether no number above one divides both.
pub open spec fn coprime(n: int, d: int) -> bool {
    forall|k: int| k > 1 && #[trigger] (n % k) == 0 ==> d % k != 0
}

/// A fraction with a positive denominator.
pub struct Fraction {
    pub numer: Mutez,
    pub denom: Mutez,
}

impl Fraction {
    /// Whether the fraction is in lowest terms, the sign on its numerator.
    pub open spec fn lowest_terms(&self) -> bool {
        self.denom@ > 0 && coprime(self.numer@, self.denom@)
    }
}

/// Calls `BigRational::new` of the `num` crate, which panics for a zero denominator. Trusted: it
/// returns the fraction in lowest terms with a positive denominator.
#[verifier::external_body]
fn rational_new(numer: &Mutez, denom: &Mutez) -> (r: Fraction)
    requires
        denom@ != 0,
    ensures
        r.lowest_terms(),
        r.numer@ * denom@ == numer@ * r.denom@,
{
    let n = BigInt::from_signed_bytes_le(&numer.bytes);
    let d = BigInt::from_signed_bytes_le(&denom.bytes);
    let (numer, denom) = BigRational::new(n, d).into_raw();
    Fraction {
        numer: Mutez { bytes: numer.to_signed_bytes_le() },
        denom: Mutez { bytes: denom.to_signed_bytes_le() },
    }
}

/// Calls `BigRational::from` of the `num` crate on a whole number. Trusted: it puts the number
/// over one.
#[verifier::external_body]
fn rational_from(whole: &Mutez) -> (r: Fraction)
    ensures
        r.numer@ == whole@,
        r.denom@ == 1,
{
    let whole = BigInt::from_signed_bytes_le(&whole.bytes);
    let (numer, denom) = BigRational::from(whole).into_raw();
    Fraction {
        numer: Mutez { bytes: numer.to_signed_bytes_le() },
        denom: Mutez { bytes: denom.to_signed_bytes_le() },
    }
}

/// Calls `BigRational::mul` of the `num` crate. Trusted: it returns the product in lowest terms
/// with a positive denominator.
#[verifier::external_body]
fn rational_mul(a: &Fraction, b: &Fraction) -> (r: Fraction)
    requires
        a.denom@ > 0,
        b.denom@ > 0,
    ensures
        r.lowest_terms(),
        r.numer@ * (a.denom@ * b.denom@) == (a.numer@ * b.numer@) * r.denom@,
{
    let big = |m: &Mutez| BigInt::from_signed_bytes_le(&m.bytes);
    let x = BigRational::new_raw(big(&a.numer), big(&a.denom));
    let y = BigRational::new_raw(big(&b.numer), big(&b.denom));
    let (numer, denom) = (x * y).into_raw();
    Fraction {
        numer: Mutez { bytes: numer.to_signed_bytes_le() },
        denom: Mutez { bytes: denom.to_signed_bytes_le() },
    }
}

/// Calls `BigRational::round` of the `num` crate. Trusted: it returns the nearest whole number,
/// half-way cases away from zero, over one.
#[verifier::external_body]
fn rational_round(a: &Fraction) -> (r: Fraction)
    requires
        a.denom@ > 0,
    ensures
        r.numer@ == nearest(a.numer@, a.denom@),
        r.denom@ == 1,
{
    let n = BigInt::from_signed_bytes_le(&a.numer.bytes);
    let d = BigInt::from_signed_bytes_le(&a.denom.bytes);
    let (numer, denom) = BigRational::new_raw(n, d).round().into_raw();
    Fraction {
        numer: Mutez { bytes: numer.to_signed_bytes_le() },
        denom: Mutez { bytes: denom.to_signed_bytes_le() },
    }
}

/// Calls `BigRational::to_integer` of the `num` crate. Trusted: it drops the fractional part.
#[verifier::external_body]
fn rational_to_integer(a: &Fraction) -> (r: Mutez)
    requires
        a.denom@ > 0,
    ensures
        r@ == truncated(a.numer@, a.denom@),
{
    let n = BigInt::from_signed_bytes_le(&a.numer.bytes);
    let d = BigInt::from_signed_bytes_le(&a.denom.bytes);
    Mutez { bytes: BigRational::new_raw(n, d).to_integer().to_signed_bytes_le() }
}

/// The nearest whole number does not change when both parts of a fraction are multiplied.
pub proof fn lemma_nearest_scaled(k: int, n: int, d: int)
    requires
        k != 0,
        d != 0,
    ensures
        nearest(k * n, k * d) == nearest(n, d),
{
    let p = if k < 0 {
        -k
    } else {
        k
    };
    let numer = if d < 0 {
        -n
    } else {
        n
    };
    let denom = if d < 0 {
        -d
    } else {
        d
    };
    let numer_abs = if numer < 0 {
        -numer
    } else {
        numer
    };
    let scaled_numer = if k * d < 0 {
        -(k * n)
    } else {
        k * n
    };
    let scaled_denom = if k * d < 0 {
        -(k * d)
    } else {
        k * d
    };
    assert(scaled_denom == p * denom && scaled_numer == p * numer) by (nonlinear_arith)
        requires
            k != 0,
            d != 0,
            p == (if k < 0 { -k } else { k }),
            numer == (if d < 0 { -n } else { n }),
            denom == (if d < 0 { -d } else { d }),
            scaled_numer == (if k * d < 0 { -(k * n) } else { k * n }),
            scaled_denom == (if k * d < 0 { -(k * d) } else { k * d }),
    ;
    assert((scaled_numer >= 0) == (numer >= 0)) by (nonlinear_arith)
        requires
            p > 0,
            scaled_numer == p * numer,
    ;
    assert(2 * (p * numer_abs) + p * denom == p * (2 * numer_abs + denom)) by (nonlinear_arith);
    assert(2 * (p * denom) == p * (2 * denom)) by (nonlinear_arith);
    assert(p * -numer == -(p * numer)) by (nonlinear_arith);
    lemma_div_multiples_vanish_quotient(p, 2 * numer_abs + denom, 2 * denom);
}

/// Equal fractions have the same nearest whole number.
pub proof fn lemma_nearest_equal(a: int, b: int, c: int, d: int)
    requires
        b != 0,
        d != 0,
        a * d == c * b,
    ensures
        nearest(a, b) == nearest(c, d),
{
    lemma_nearest_scaled(d, a, b);
    lemma_nearest_scaled(b, c, d);
    assert(d * a == b * c) by (nonlinear_arith)
        requires
            a * d == c * b,
    ;
    assert(d * b == b * d) by (nonlinear_arith);
}

/// What `whole * part / of` comes to, rounded to the nearest mutez.
pub fn share_of(whole: &Mutez, part: &Mutez, of: &Mutez) -> (r: Mutez)
    requires
        of@ != 0,
    ensures
        r@ == nearest(whole@ * part@, of@),
{
    let share = rational_new(part, of);
    let product = rational_mul(&rational_from(whole), &share);
    proof {
        let n = product.numer@;
        let d = product.denom@;
        let sn = share.numer@;
        let sd = share.denom@;
        let w = whole@;
        let p = part@;
        let o = of@;
        assert(n * sd == (w * sn) * d) by {
            assert(1 * sd == sd);
        }
        assert(n * o == (w * p) * d) by (nonlinear_arith)
            requires
                sd > 0,
                n * sd == (w * sn) * d,
                sn * o == p * sd,
        {
            assert((n * o) * sd == (w * p) * d * sd) by (nonlinear_arith)
                requires
                    n * sd == (w * sn) * d,
                    sn * o == p * sd,
            ;
        }
        lemma_nearest_equal(n, d, w * p, o);
        assert(1 * sd == sd);
    }
    rational_to_integer(&rational_round(&product))
}

} // verus!
