//! Fixed-point decimal numbers, as a mantissa and a power-of-ten scale.
//!
//! A `Dec` holds the same two numbers that `rust_decimal::Decimal` is made of;
//! every operation on it is carried out by `rust_decimal` itself.
use crate::text::{decimal_digits, zero_pad};
use rust_decimal::Decimal;
use vstd::prelude::*;

verus! {

/// Largest magnitude of a 96-bit mantissa.
pub const MAX_MANTISSA: i128 = 0xffff_ffff_ffff_ffff_ffff_ffff;

/// Largest number of digits after the decimal point.
pub const MAX_SCALE: u32 = 28;

/// Powers of ten.
pub open spec fn pow10(n: nat) -> int
    decreases n,
{
    if n == 0 {
        1
    } else {
        10 * pow10((n - 1) as nat)
    }
}

/// A mantissa and a scale that a decimal can hold.
pub open spec fn representable(v: (int, nat)) -> bool {
    -MAX_MANTISSA <= v.0 <= MAX_MANTISSA && v.1 <= MAX_SCALE
}

/// `a` and `b` denote the same number (`a.0 / 10^a.1 == b.0 / 10^b.1`).
pub open spec fn same_value(a: (int, nat), b: (int, nat)) -> bool {
    a.0 * pow10(b.1) == b.0 * pow10(a.1)
}

/// The number `a` denotes is smaller than the number `b` denotes.
pub open spec fn less_value(a: (int, nat), b: (int, nat)) -> bool {
    a.0 * pow10(b.1) < b.0 * pow10(a.1)
}

/// The product of two decimals, computed without rounding.
pub open spec fn exact_product(a: (int, nat), b: (int, nat)) -> (int, nat) {
    (a.0 * b.0, a.1 + b.1)
}

/// The parts of an exact product as `rust_decimal` writes them: zero, with
/// no digits after the point, where a factor is zero; else the mantissas
/// multiplied, at the sum of the scales.
pub open spec fn product_parts(a: (int, nat), b: (int, nat)) -> (int, nat) {
    if a.0 == 0 || b.0 == 0 {
        (0int, 0nat)
    } else {
        exact_product(a, b)
    }
}

/// `a` written with `s` digits after the point (`s >= a.1`).
pub open spec fn aligned(a: (int, nat), s: nat) -> (int, nat) {
    (a.0 * pow10((s - a.1) as nat), s)
}

pub open spec fn max_scale(a: (int, nat), b: (int, nat)) -> nat {
    if a.1 >= b.1 {
        a.1
    } else {
        b.1
    }
}

/// The sum of two decimals at the larger of their scales, computed without rounding.
pub open spec fn exact_sum(a: (int, nat), b: (int, nat)) -> (int, nat) {
    let s = max_scale(a, b);
    (aligned(a, s).0 + aligned(b, s).0, s)
}

/// Both operands and their sum fit at the larger scale.
pub open spec fn sum_fits(a: (int, nat), b: (int, nat)) -> bool {
    let s = max_scale(a, b);
    representable(aligned(a, s)) && representable(aligned(b, s)) && representable(
        exact_sum(a, b),
    )
}

/// The view of a mantissa and scale pair, or `None`.
pub open spec fn parts_view(r: Option<(i128, u32)>) -> Option<(int, nat)> {
    match r {
        Some((m, s)) => Some((m as int, s as nat)),
        None => None,
    }
}

/// A mantissa and scale pair, if any, that a decimal can hold.
pub open spec fn parts_representable(r: Option<(i128, u32)>) -> bool {
    match r {
        Some((m, s)) => representable((m as int, s as nat)),
        None => true,
    }
}

/// Where `cond` holds, `r` is the pair `exact`.
pub open spec fn parts_equal_when(r: Option<(i128, u32)>, cond: bool, exact: (int, nat)) -> bool {
    cond ==> (r matches Some((m, s)) && (m as int, s as nat) == exact)
}

/// Where `cond` holds, `r` is a pair with the same value as `exact`.
pub open spec fn parts_match_when(r: Option<(i128, u32)>, cond: bool, exact: (int, nat)) -> bool {
    cond ==> (r matches Some((m, s)) && same_value((m as int, s as nat), exact))
}

/// What `rust_decimal` computes for `a * b`; `None` where it reports an overflow.
pub uninterp spec fn decimal_product(a: (int, nat), b: (int, nat)) -> Option<(int, nat)>;

/// What `rust_decimal` computes for `a + b`; `None` where it reports an overflow.
pub uninterp spec fn decimal_sum(a: (int, nat), b: (int, nat)) -> Option<(int, nat)>;

/// The decimal digits of a mantissa's magnitude; none for zero.
pub open spec fn magnitude_digits(m: int) -> Seq<char> {
    if m == 0 {
        Seq::empty()
    } else if m < 0 {
        decimal_digits((-m) as nat)
    } else {
        decimal_digits(m as nat)
    }
}

/// The text that `rust_decimal` writes for a decimal (its `Display`): the
/// digits of the mantissa, with zeros in front up to the scale, a point before
/// the last `scale` of them (and a `0` before a point that would come first),
/// `0` for a zero without digits after the point, and a `-` in front of a
/// negative number.
pub open spec fn decimal_text(a: (int, nat)) -> Seq<char> {
    let digits = zero_pad(magnitude_digits(a.0), a.1);
    let whole_len = digits.len() - a.1;
    let body = if a.1 == 0 {
        if digits.len() == 0 {
            seq!['0']
        } else {
            digits
        }
    } else {
        (if whole_len == 0 {
            seq!['0']
        } else {
            digits.take(whole_len)
        }) + seq!['.'] + digits.skip(whole_len)
    };
    if a.0 < 0 {
        seq!['-'] + body
    } else {
        body
    }
}

/// Multiplies with `rust_decimal::Decimal::checked_mul`.
/// Trusted: the result is `decimal_product` of the two operands, it is a valid
/// decimal, and where the exact product fits in 96 bits with at most 28 digits
/// after the point it is that product, at the sum of the scales (zero at
/// scale 0 where a factor is zero); rounding happens only beyond that.
#[verifier::external_body]
fn decimal_checked_mul(m1: i128, s1: u32, m2: i128, s2: u32) -> (r: Option<(i128, u32)>)
    requires
        representable((m1 as int, s1 as nat)),
        representable((m2 as int, s2 as nat)),
    ensures
        parts_view(r) == decimal_product((m1 as int, s1 as nat), (m2 as int, s2 as nat)),
        parts_representable(r),
        parts_equal_when(
            r,
            representable(exact_product((m1 as int, s1 as nat), (m2 as int, s2 as nat))),
            product_parts((m1 as int, s1 as nat), (m2 as int, s2 as nat)),
        ),
{
    let a = Decimal::from_i128_with_scale(m1, s1);
    let b = Decimal::from_i128_with_scale(m2, s2);
    match a.checked_mul(b) {
        Some(d) => Some((d.mantissa(), d.scale())),
        None => None,
    }
}

/// Adds with `rust_decimal::Decimal::checked_add`.
/// Trusted: the result is `decimal_sum` of the two operands, it is a valid
/// decimal, where the first operand is zero it is the second one as it is
/// (else, where the second is zero, the first one), and where both operands
/// and their sum fit at the larger scale it is the exact sum at that scale.
#[verifier::external_body]
fn decimal_checked_add(m1: i128, s1: u32, m2: i128, s2: u32) -> (r: Option<(i128, u32)>)
    requires
        representable((m1 as int, s1 as nat)),
        representable((m2 as int, s2 as nat)),
    ensures
        parts_view(r) == decimal_sum((m1 as int, s1 as nat), (m2 as int, s2 as nat)),
        parts_representable(r),
        parts_match_when(r, sum_fits((m1 as int, s1 as nat), (m2 as int, s2 as nat)), exact_sum((m1 as int, s1 as nat), (m2 as int, s2 as nat))),
        parts_equal_when(
            r,
            m1 != 0 && m2 != 0 && sum_fits((m1 as int, s1 as nat), (m2 as int, s2 as nat)),
            exact_sum((m1 as int, s1 as nat), (m2 as int, s2 as nat)),
        ),
        m1 == 0 ==> r == Some((m2, s2)),
        m1 != 0 && m2 == 0 ==> r == Some((m1, s1)),
{
    let a = Decimal::from_i128_with_scale(m1, s1);
    let b = Decimal::from_i128_with_scale(m2, s2);
    match a.checked_add(b) {
        Some(d) => Some((d.mantissa(), d.scale())),
        None => None,
    }
}

/// Compares with `<` on `rust_decimal::Decimal`, which orders by numeric value.
#[verifier::external_body]
fn decimal_less(m1: i128, s1: u32, m2: i128, s2: u32) -> (r: bool)
    requires
        representable((m1 as int, s1 as nat)),
        representable((m2 as int, s2 as nat)),
    ensures
        r == less_value((m1 as int, s1 as nat), (m2 as int, s2 as nat)),
{
    Decimal::from_i128_with_scale(m1, s1) < Decimal::from_i128_with_scale(m2, s2)
}

/// Compares with `==` on `rust_decimal::Decimal`, which is numeric equality
/// (`1.0 == 1.00`).
#[verifier::external_body]
fn decimal_equal(m1: i128, s1: u32, m2: i128, s2: u32) -> (r: bool)
    requires
        representable((m1 as int, s1 as nat)),
        representable((m2 as int, s2 as nat)),
    ensures
        r == same_value((m1 as int, s1 as nat), (m2 as int, s2 as nat)),
{
    Decimal::from_i128_with_scale(m1, s1) == Decimal::from_i128_with_scale(m2, s2)
}

/// Writes the decimal with `rust_decimal::Decimal`'s `Display`.
/// Trusted: the text is `decimal_text` of the mantissa and scale, as
/// `rust_decimal`'s `to_str_internal` builds it and `pad_integral` signs it.
#[verifier::external_body]
fn decimal_to_text(m: i128, s: u32) -> (r: String)
    requires
        representable((m as int, s as nat)),
    ensures
        r@ == decimal_text((m as int, s as nat)),
{
    Decimal::from_i128_with_scale(m, s).to_string()
}

/// A decimal number `mantissa / 10^scale`.
#[derive(Clone, Copy, Debug)]
pub struct Dec {
    mantissa: i128,
    scale: u32,
}

impl View for Dec {
    type V = (int, nat);

    closed spec fn view(&self) -> (int, nat) {
        (self.mantissa as int, self.scale as nat)
    }
}

/// A decimal's view, or `None`.
pub open spec fn opt_view(d: Option<Dec>) -> Option<(int, nat)> {
    match d {
        Some(x) => Some(x@),
        None => None,
    }
}

impl Dec {
    #[verifier::type_invariant]
    spec fn well_formed(self) -> bool {
        representable(self@)
    }

    /// The decimal `mantissa / 10^scale`, or `None` where the parts do not fit.
    pub fn new(mantissa: i128, scale: u32) -> (r: Option<Dec>)
        ensures
            r is Some <==> representable((mantissa as int, scale as nat)),
            r matches Some(d) ==> d@ == (mantissa as int, scale as nat),
    {
        if -MAX_MANTISSA <= mantissa && mantissa <= MAX_MANTISSA && scale <= MAX_SCALE {
            Some(Dec { mantissa, scale })
        } else {
            None
        }
    }

    /// Zero, with no digits after the point.
    pub fn zero() -> (r: Dec)
        ensures
            r@ == (0int, 0nat),
    {
        Dec { mantissa: 0, scale: 0 }
    }

    pub fn mantissa(&self) -> (r: i128)
        ensures
            r == self@.0,
            representable(self@),
    {
        proof {
            use_type_invariant(self);
        }
        self.mantissa
    }

    pub fn scale(&self) -> (r: u32)
        ensures
            r == self@.1,
    {
        self.scale
    }

    /// `self * other` as `rust_decimal` computes it; `None` on overflow.
    pub fn checked_mul(&self, other: &Dec) -> (r: Option<Dec>)
        ensures
            opt_view(r) == decimal_product(self@, other@),
            r matches Some(p) ==> representable(p@),
            representable(exact_product(self@, other@)) ==> (r matches Some(p) && p@
                == product_parts(self@, other@)),
    {
        proof {
            use_type_invariant(self);
            use_type_invariant(other);
        }
        match decimal_checked_mul(self.mantissa, self.scale, other.mantissa, other.scale) {
            Some((m, s)) => Some(Dec { mantissa: m, scale: s }),
            None => None,
        }
    }

    /// `self + other` as `rust_decimal` computes it; `None` on overflow.
    pub fn checked_add(&self, other: &Dec) -> (r: Option<Dec>)
        ensures
            opt_view(r) == decimal_sum(self@, other@),
            r matches Some(p) ==> representable(p@),
            self@.0 == 0 ==> (r matches Some(p) && p@ == other@),
            self@.0 != 0 && other@.0 == 0 ==> (r matches Some(p) && p@ == self@),
            self@.0 != 0 && other@.0 != 0 && sum_fits(self@, other@) ==> (r matches Some(p) && p@
                == exact_sum(self@, other@)),
            sum_fits(self@, other@) ==> (r matches Some(p) && same_value(
                p@,
                exact_sum(self@, other@),
            )),
    {
        proof {
            use_type_invariant(self);
            use_type_invariant(other);
        }
        match decimal_checked_add(self.mantissa, self.scale, other.mantissa, other.scale) {
            Some((m, s)) => Some(Dec { mantissa: m, scale: s }),
            None => None,
        }
    }

    /// Numeric `self < other`.
    pub fn less_than(&self, other: &Dec) -> (r: bool)
        ensures
            r == less_value(self@, other@),
    {
        proof {
            use_type_invariant(self);
            use_type_invariant(other);
        }
        decimal_less(self.mantissa, self.scale, other.mantissa, other.scale)
    }

    /// Numeric equality (`2 == 2.00`).
    pub fn same_as(&self, other: &Dec) -> (r: bool)
        ensures
            r == same_value(self@, other@),
    {
        proof {
            use_type_invariant(self);
            use_type_invariant(other);
        }
        decimal_equal(self.mantissa, self.scale, other.mantissa, other.scale)
    }

    /// The decimal as `rust_decimal` prints it (`"450.00"`).
    pub fn to_text(&self) -> (r: String)
        ensures
            r@ == decimal_text(self@),
    {
        proof {
            use_type_invariant(self);
        }
        decimal_to_text(self.mantissa, self.scale)
    }
}

} // verus!
