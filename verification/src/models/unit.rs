pub mod distance_unit;
pub mod length_unit;

use vstd::prelude::*;

pub use length_unit::LengthUnit;
pub use distance_unit::DistanceUnit;

verus! {

/// An exact fraction `num / den`; well formed when `den > 0`.
#[derive(Debug, Clone, Copy, PartialEq, Eq, Structural)]
pub struct Ratio {
    pub num: i128,
    pub den: i128,
}

/// The largest numerator or denominator of a unit factor.
pub const FACTOR_BOUND: i128 = 0x10_0000;

impl Ratio {
    /// The denominator is positive.
    pub open spec fn wf(self) -> bool {
        self.den > 0
    }

    /// The fraction `num / den`.
    pub fn new(num: i128, den: i128) -> (r: Ratio)
        requires
            den > 0,
        ensures
            r == (Ratio { num, den }),
            r.wf(),
    {
        Ratio { num, den }
    }

    /// The integer `v` as a fraction.
    pub fn from_int(v: i64) -> (r: Ratio)
        ensures
            r.num == v,
            r.den == 1,
    {
        Ratio { num: v as i128, den: 1 }
    }
}

/// The fraction `num / den` converted with the factors `from` and `to`, that is
/// multiplied by `from` and divided by `to`, without reducing it.
pub open spec fn scaled(num: int, den: int, from: Ratio, to: Ratio) -> (int, int) {
    (num * (from.num * to.den), den * (from.den * to.num))
}

/// The fractions `x.0 / x.1` and `y.0 / y.1` are equal (for non-zero denominators).
pub open spec fn same_fraction(x: (int, int), y: (int, int)) -> bool {
    x.0 * y.1 == y.0 * x.1
}

/// Whether a fraction fits into a [`Ratio`].
pub open spec fn fits_ratio(x: (int, int)) -> bool {
    &&& i128::MIN <= x.0 <= i128::MAX
    &&& x.1 <= i128::MAX
}

/// A unit with a conversion factor relative to its group's base unit.
pub trait UnitConvertible: Copy + Sized {
    /// The factor of this unit.
    spec fn spec_factor(self) -> Ratio;

    /// Factors are positive, with numerator and denominator at most [`FACTOR_BOUND`].
    proof fn lemma_factor_bounds(self)
        ensures
            0 < self.spec_factor().num <= FACTOR_BOUND,
            0 < self.spec_factor().den <= FACTOR_BOUND,
    ;

    /// The factor of this unit.
    fn unit_factor(self) -> (r: Ratio)
        ensures
            r == self.spec_factor(),
    ;
}

/// The greatest common divisor of `a` and `b` (Euclid's algorithm; `gcd(a, 0) == a`).
pub open spec fn gcd(a: nat, b: nat) -> nat
    decreases b,
{
    if b == 0 {
        a
    } else {
        gcd(b, a % b)
    }
}

proof fn lemma_divides_from_mod(a: nat, b: nat, g: nat)
    requires
        b > 0,
        g > 0,
        b % g == 0,
        (a % b) % g == 0,
    ensures
        a % g == 0,
{
    vstd::arithmetic::div_mod::lemma_fundamental_div_mod(a as int, b as int);
    vstd::arithmetic::div_mod::lemma_fundamental_div_mod(b as int, g as int);
    vstd::arithmetic::div_mod::lemma_fundamental_div_mod((a % b) as int, g as int);
    let q = a / b;
    let k1 = b / g;
    let k2 = (a % b) / g;
    assert(a == ((k1 * q + k2) as int) * g) by (nonlinear_arith)
        requires
            a == b * q + a % b,
            b == g * k1,
            a % b == g * k2,
    ;
    vstd::arithmetic::div_mod::lemma_mod_multiples_basic((k1 * q + k2) as int, g as int);
}

/// The greatest common divisor of two numbers, not both zero, is positive and divides
/// both.
pub proof fn lemma_gcd_divides(a: nat, b: nat)
    requires
        a > 0 || b > 0,
    ensures
        gcd(a, b) > 0,
        a % gcd(a, b) == 0,
        b % gcd(a, b) == 0,
    decreases b,
{
    if b == 0 {
        vstd::arithmetic::div_mod::lemma_mod_self_0(a as int);
    } else {
        lemma_gcd_divides(b, a % b);
        lemma_divides_from_mod(a, b, gcd(b, a % b));
    }
}

fn gcd_exec(a: u128, b: u128) -> (g: u128)
    ensures
        g == gcd(a as nat, b as nat),
{
    let mut x = a;
    let mut y = b;
    while y != 0
        invariant
            gcd(x as nat, y as nat) == gcd(a as nat, b as nat),
        decreases y,
    {
        let r = x % y;
        x = y;
        y = r;
    }
    x
}

/// `num / den` converted with the factors `from` and `to`, with the common factors of
/// the numerator and the factors' denominator, and of the denominator and the factors'
/// numerator, cancelled.
pub open spec fn cancelled(num: int, den: int, from: Ratio, to: Ratio) -> (int, int) {
    let sn = from.num * to.den;
    let sd = from.den * to.num;
    let m = if num < 0 {
        -num
    } else {
        num
    };
    let g1 = gcd(m as nat, sd as nat) as int;
    let g2 = gcd(den as nat, sn as nat) as int;
    let mag = (m / g1) * (sn / g2);
    (
        if num < 0 {
            -mag
        } else {
            mag
        },
        (den / g2) * (sd / g1),
    )
}

/// Cancelling keeps the fraction, and a converted fraction that fits unreduced also fits
/// cancelled.
pub proof fn lemma_cancelled(num: int, den: int, from: Ratio, to: Ratio)
    requires
        den > 0,
        from.num > 0,
        from.den > 0,
        to.num > 0,
        to.den > 0,
    ensures
        same_fraction(cancelled(num, den, from, to), scaled(num, den, from, to)),
        cancelled(num, den, from, to).1 > 0,
        fits_ratio(scaled(num, den, from, to)) ==> fits_ratio(cancelled(num, den, from, to)),
{
    let sn = from.num * to.den;
    let sd = from.den * to.num;
    assert(sn > 0 && sd > 0) by (nonlinear_arith)
        requires
            from.num > 0,
            from.den > 0,
            to.num > 0,
            to.den > 0,
            sn == from.num * to.den,
            sd == from.den * to.num,
    ;
    let m = if num < 0 {
        -num
    } else {
        num
    };
    lemma_gcd_divides(m as nat, sd as nat);
    lemma_gcd_divides(den as nat, sn as nat);
    let g1 = gcd(m as nat, sd as nat) as int;
    let g2 = gcd(den as nat, sn as nat) as int;
    vstd::arithmetic::div_mod::lemma_fundamental_div_mod(m, g1);
    vstd::arithmetic::div_mod::lemma_fundamental_div_mod(sd, g1);
    vstd::arithmetic::div_mod::lemma_fundamental_div_mod(den, g2);
    vstd::arithmetic::div_mod::lemma_fundamental_div_mod(sn, g2);
    let m1 = m / g1;
    let d1 = sd / g1;
    let e1 = den / g2;
    let s1 = sn / g2;
    assert(m1 >= 0 && d1 > 0 && e1 > 0 && s1 > 0 && m1 <= m && d1 <= sd && e1 <= den && s1 <= sn)
        by (nonlinear_arith)
        requires
            m >= 0,
            g1 > 0,
            g2 > 0,
            sd > 0,
            den > 0,
            sn > 0,
            m == g1 * m1,
            sd == g1 * d1,
            den == g2 * e1,
            sn == g2 * s1,
    ;
    let c = cancelled(num, den, from, to);
    let x = scaled(num, den, from, to);
    assert(c.1 == e1 * d1);
    assert(c.1 > 0) by (nonlinear_arith)
        requires
            c.1 == e1 * d1,
            e1 > 0,
            d1 > 0,
    ;
    assert(m1 * s1 <= m * sn && e1 * d1 <= den * sd && 0 <= m1 * s1) by (nonlinear_arith)
        requires
            0 <= m1 <= m,
            0 < s1 <= sn,
            0 < e1 <= den,
            0 < d1 <= sd,
    ;
    if num < 0 {
        assert(c.0 == -(m1 * s1));
        assert(x.0 == -(m * sn)) by (nonlinear_arith)
            requires
                x.0 == num * sn,
                m == -num,
        ;
        assert(c.0 * x.1 == x.0 * c.1) by (nonlinear_arith)
            requires
                c.0 == -(m1 * s1),
                x.0 == -(m * sn),
                x.1 == den * sd,
                c.1 == e1 * d1,
                m == g1 * m1,
                sd == g1 * d1,
                den == g2 * e1,
                sn == g2 * s1,
        ;
    } else {
        assert(c.0 == m1 * s1);
        assert(c.0 * x.1 == x.0 * c.1) by (nonlinear_arith)
            requires
                c.0 == m1 * s1,
                x.0 == num * sn,
                num == m,
                x.1 == den * sd,
                c.1 == e1 * d1,
                m == g1 * m1,
                sd == g1 * d1,
                den == g2 * e1,
                sn == g2 * s1,
        ;
        assert(x.0 == m * sn);
    }
}

/// Converts `value` from unit `from` to unit `to`: `value * factor(from) / factor(to)`,
/// exactly, with common factors cancelled (see [`cancelled`]), or `None` when that
/// fraction does not fit into a [`Ratio`].
pub fn convert_between<U: UnitConvertible>(value: Ratio, from: U, to: U) -> (r: Option<Ratio>)
    requires
        value.wf(),
    ensures
        r == convert_between_result(value, from, to),
        r matches Some(x) ==> x.wf() && same_fraction(
            (x.num as int, x.den as int),
            scaled(value.num as int, value.den as int, from.spec_factor(), to.spec_factor()),
        ),
        fits_ratio(scaled(value.num as int, value.den as int, from.spec_factor(), to.spec_factor()))
            ==> r is Some,
{
    let f = from.unit_factor();
    let t = to.unit_factor();
    proof {
        from.lemma_factor_bounds();
        to.lemma_factor_bounds();
        lemma_cancelled(value.num as int, value.den as int, f, t);
    }
    assert(0 < f.num * t.den <= FACTOR_BOUND * FACTOR_BOUND) by (nonlinear_arith)
        requires
            0 < f.num <= FACTOR_BOUND,
            0 < t.den <= FACTOR_BOUND,
    ;
    assert(0 < f.den * t.num <= FACTOR_BOUND * FACTOR_BOUND) by (nonlinear_arith)
        requires
            0 < f.den <= FACTOR_BOUND,
            0 < t.num <= FACTOR_BOUND,
    ;
    let sn = (f.num * t.den) as u128;
    let sd = (f.den * t.num) as u128;
    let negative = value.num < 0;
    let m: u128 = if negative {
        ((-(value.num + 1)) as u128) + 1
    } else {
        value.num as u128
    };
    let den = value.den as u128;
    let g1 = gcd_exec(m, sd);
    let g2 = gcd_exec(den, sn);
    proof {
        lemma_gcd_divides(m as nat, sd as nat);
        lemma_gcd_divides(den as nat, sn as nat);
    }
    let mag = match (m / g1).checked_mul(sn / g2) {
        Some(x) => x,
        None => {
            return None;
        },
    };
    let d = match (den / g2).checked_mul(sd / g1) {
        Some(x) => x,
        None => {
            return None;
        },
    };
    if d > 0x7fff_ffff_ffff_ffff_ffff_ffff_ffff_ffff {
        return None;
    }
    let n: i128 = if negative {
        if mag > 0x8000_0000_0000_0000_0000_0000_0000_0000 {
            return None;
        } else if mag == 0x8000_0000_0000_0000_0000_0000_0000_0000 {
            i128::MIN
        } else {
            -(mag as i128)
        }
    } else {
        if mag > 0x7fff_ffff_ffff_ffff_ffff_ffff_ffff_ffff {
            return None;
        }
        mag as i128
    };
    Some(Ratio { num: n, den: d as i128 })
}

/// What [`convert_between`] returns for `value`, `from` and `to`.
pub open spec fn convert_between_result<U: UnitConvertible>(value: Ratio, from: U, to: U) -> Option<Ratio> {
    let x = cancelled(value.num as int, value.den as int, from.spec_factor(), to.spec_factor());
    if fits_ratio(x) {
        Some(Ratio { num: x.0 as i128, den: x.1 as i128 })
    } else {
        None
    }
}

/// The message for a text that names no unit: `Unsupported unit '<value>'`.
pub open spec fn unsupported_unit_message_spec(value: Seq<char>) -> Seq<char> {
    seq!['U', 'n', 's', 'u', 'p', 'p', 'o', 'r', 't', 'e', 'd', ' ', 'u', 'n', 'i', 't', ' ', '\'']
        + value + seq!['\'']
}

/// The message for a text that names no unit: `Unsupported unit '<value>'`.
pub fn unsupported_unit_message(value: &str) -> (r: String)
    ensures
        r@ == unsupported_unit_message_spec(value@),
{
    let mut m: String = "Unsupported unit '".to_owned();
    m.append(value);
    m.append("'");
    proof {
        reveal_strlit("Unsupported unit '");
        reveal_strlit("'");
    }
    m
}

/// Converting a value to the unit it is in keeps it.
pub proof fn law_convert_same_unit(num: int, den: int, f: Ratio)
    ensures
        same_fraction(scaled(num, den, f, f), (num, den)),
{
    assert(num * (f.num * f.den) * den == num * (den * (f.den * f.num))) by (nonlinear_arith);
}

/// Converting a value from one unit to another and back gives the value it started from.
pub proof fn law_convert_round_trip(num: int, den: int, a: Ratio, b: Ratio)
    ensures
        same_fraction(scaled(scaled(num, den, a, b).0, scaled(num, den, a, b).1, b, a), (num, den)),
{
    let x = scaled(num, den, a, b);
    assert(num * (a.num * b.den) * (b.num * a.den) * den == num * (den * (a.den * b.num) * (
    b.den * a.num))) by (nonlinear_arith);
}

/// Converting from `a` to `b` and then to `c` gives the same value as converting from
/// `a` to `c` directly.
pub proof fn law_convert_compose(num: int, den: int, a: Ratio, b: Ratio, c: Ratio)
    ensures
        same_fraction(
            scaled(scaled(num, den, a, b).0, scaled(num, den, a, b).1, b, c),
            scaled(num, den, a, c),
        ),
{
    let u = num * a.num;
    let v = den * a.den;
    assert(num * (a.num * b.den) == u * b.den) by (nonlinear_arith)
        requires
            u == num * a.num,
    ;
    assert(den * (a.den * c.num) == v * c.num) by (nonlinear_arith)
        requires
            v == den * a.den,
    ;
    assert(num * (a.num * c.den) == u * c.den) by (nonlinear_arith)
        requires
            u == num * a.num,
    ;
    assert(den * (a.den * b.num) == v * b.num) by (nonlinear_arith)
        requires
            v == den * a.den,
    ;
    lemma_rearrange_six(u, v, b.den as int, b.num as int, c.den as int, c.num as int);
}

proof fn lemma_rearrange_six(u: int, v: int, p: int, q: int, r: int, s: int)
    ensures
        (u * p) * (q * r) * (v * s) == (u * r) * ((v * q) * (p * s)),
{
    assert((u * p) * (q * r) == (u * r) * (p * q)) by (nonlinear_arith);
    assert((v * q) * (p * s) == (p * q) * (v * s)) by (nonlinear_arith);
    assert((u * r) * (p * q) * (v * s) == (u * r) * ((p * q) * (v * s))) by (nonlinear_arith);
}

} // verus!
