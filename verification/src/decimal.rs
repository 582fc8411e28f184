//! Exact decimal numbers: a signed 96-bit mantissa and a power-of-ten scale.
//!
//! The arithmetic itself is done by the `rust_decimal` crate. This module holds
//! the plain-value form of such a number, its mathematical meaning, and the
//! contracts under which the crate's operations are called.

use std::cmp::Ordering;
use vstd::arithmetic::power::{lemma_pow_adds, pow};
use vstd::prelude::*;

verus! {

/// Largest magnitude a mantissa can have: `2^96 - 1`.
pub const MAX_MANTISSA: i128 = 79_228_162_514_264_337_593_543_950_335;

/// Largest number of fractional digits.
pub const MAX_SCALE: u32 = 28;

/// The mathematical content of a [`Decimal`]: the number `mantissa / 10^scale`.
pub struct DecimalView {
    pub mantissa: int,
    pub scale: nat,
}

impl DecimalView {
    /// The mantissa fits in 96 bits and the scale does not exceed 28.
    pub open spec fn valid(self) -> bool {
        &&& -MAX_MANTISSA <= self.mantissa <= MAX_MANTISSA
        &&& self.scale <= MAX_SCALE
    }

    /// The number counted in units of `10^-28`. Every valid decimal is a whole
    /// number of such units, so two decimals denote the same number exactly
    /// when their units agree, and they are ordered as their units are.
    pub open spec fn units(self) -> int {
        self.mantissa * pow(10, (MAX_SCALE - self.scale) as nat)
    }

    /// The number zero, written without fractional digits.
    pub open spec fn zero() -> DecimalView {
        DecimalView { mantissa: 0, scale: 0 }
    }
}

/// An exact decimal number.
#[derive(Debug, Clone, Copy)]
pub struct Decimal {
    mantissa: i128,
    scale: u32,
}

impl View for Decimal {
    type V = DecimalView;

    closed spec fn view(&self) -> DecimalView {
        DecimalView { mantissa: self.mantissa as int, scale: self.scale as nat }
    }
}

/// The views of an optional decimal.
pub open spec fn option_view(d: Option<Decimal>) -> Option<DecimalView> {
    match d {
        Some(d) => Some(d@),
        None => None,
    }
}

/// What `rust_decimal` reads from a text: the number it takes the text to
/// denote, after any rounding it applies, or `None` where it rejects the
/// text. Which texts it accepts is the crate's to say, and is not restated
/// here.
pub uninterp spec fn decimal_from_text(text: Seq<char>) -> Option<DecimalView>;

/// What `rust_decimal` gives as the product of two numbers: the product,
/// rounded where the exact one has no representation, or `None` where it is
/// too large to be represented at all.
pub uninterp spec fn decimal_product(a: DecimalView, b: DecimalView) -> Option<DecimalView>;

/// What `rust_decimal` gives as the difference of two numbers: the
/// difference, rounded where the exact one has no representation, or `None`
/// where it is too large to be represented at all.
pub uninterp spec fn decimal_difference(a: DecimalView, b: DecimalView) -> Option<DecimalView>;

/// The product of the two mantissas fits in 96 bits and the scales add up to
/// at most 28, so that the product needs no rounding.
pub open spec fn product_fits(a: DecimalView, b: DecimalView) -> bool {
    &&& -MAX_MANTISSA <= a.mantissa * b.mantissa <= MAX_MANTISSA
    &&& a.scale + b.scale <= MAX_SCALE
}

/// Both numbers, written with the larger of the two scales, fit in 96 bits,
/// and so does their difference: subtraction then needs no rounding.
pub open spec fn difference_fits(a: DecimalView, b: DecimalView) -> bool {
    let scale = if a.scale >= b.scale { a.scale } else { b.scale };
    let x = a.mantissa * pow(10, (scale - a.scale) as nat);
    let y = b.mantissa * pow(10, (scale - b.scale) as nat);
    &&& -MAX_MANTISSA <= x <= MAX_MANTISSA
    &&& -MAX_MANTISSA <= y <= MAX_MANTISSA
    &&& -MAX_MANTISSA <= x - y <= MAX_MANTISSA
}

/// `p` denotes exactly the product of the numbers that `a` and `b` denote.
pub open spec fn is_product(p: DecimalView, a: DecimalView, b: DecimalView) -> bool {
    p.units() * pow(10, 28) == a.units() * b.units()
}

/// `d` denotes exactly the difference of the numbers that `a` and `b` denote.
pub open spec fn is_difference(d: DecimalView, a: DecimalView, b: DecimalView) -> bool {
    d.units() == a.units() - b.units()
}

/// The product of the two numbers can be written as a decimal within the
/// limits, with whatever scale: it then needs no rounding.
pub open spec fn product_is_representable(a: DecimalView, b: DecimalView) -> bool {
    exists|p: DecimalView| p.valid() && #[trigger] is_product(p, a, b)
}

/// The difference of the two numbers can be written as a decimal within the
/// limits, with whatever scale: it then needs no rounding.
pub open spec fn difference_is_representable(a: DecimalView, b: DecimalView) -> bool {
    exists|d: DecimalView| d.valid() && #[trigger] is_difference(d, a, b)
}

/// A product whose mantissa and scale fit as they stand can be written as a
/// decimal: with the product of the mantissas and the sum of the scales.
pub proof fn lemma_product_that_fits_is_representable(a: DecimalView, b: DecimalView)
    requires
        product_fits(a, b),
    ensures
        product_is_representable(a, b),
{
    let p = DecimalView { mantissa: a.mantissa * b.mantissa, scale: a.scale + b.scale };
    let ea = (MAX_SCALE - a.scale) as nat;
    let eb = (MAX_SCALE - b.scale) as nat;
    let ep = (MAX_SCALE - p.scale) as nat;
    lemma_pow_adds(10, ep, 28);
    lemma_pow_adds(10, ea, eb);
    assert(ep + 28 == ea + eb);
    assert(pow(10, ep) * pow(10, 28) == pow(10, ea) * pow(10, eb));
    assert(is_product(p, a, b)) by (nonlinear_arith)
        requires
            p.mantissa == a.mantissa * b.mantissa,
            pow(10, ep) * pow(10, 28) == pow(10, ea) * pow(10, eb),
            p.units() == p.mantissa * pow(10, ep),
            a.units() == a.mantissa * pow(10, ea),
            b.units() == b.mantissa * pow(10, eb),
            is_product(p, a, b) == (p.units() * pow(10, 28) == a.units() * b.units()),
    ;
}

/// A difference that fits at the larger of the two scales can be written as
/// a decimal: with that scale.
pub proof fn lemma_difference_that_fits_is_representable(a: DecimalView, b: DecimalView)
    requires
        a.scale <= MAX_SCALE,
        b.scale <= MAX_SCALE,
        difference_fits(a, b),
    ensures
        difference_is_representable(a, b),
{
    let scale = if a.scale >= b.scale {
        a.scale
    } else {
        b.scale
    };
    let x = a.mantissa * pow(10, (scale - a.scale) as nat);
    let y = b.mantissa * pow(10, (scale - b.scale) as nat);
    let d = DecimalView { mantissa: x - y, scale };
    let rest = (MAX_SCALE - scale) as nat;
    lemma_pow_adds(10, (scale - a.scale) as nat, rest);
    lemma_pow_adds(10, (scale - b.scale) as nat, rest);
    assert((scale - a.scale) as nat + rest == (MAX_SCALE - a.scale) as nat);
    assert((scale - b.scale) as nat + rest == (MAX_SCALE - b.scale) as nat);
    assert(is_difference(d, a, b)) by (nonlinear_arith)
        requires
            d.mantissa == x - y,
            x == a.mantissa * pow(10, (scale - a.scale) as nat),
            y == b.mantissa * pow(10, (scale - b.scale) as nat),
            d.units() == d.mantissa * pow(10, rest),
            a.units() == a.mantissa * (pow(10, (scale - a.scale) as nat) * pow(10, rest)),
            b.units() == b.mantissa * (pow(10, (scale - b.scale) as nat) * pow(10, rest)),
            is_difference(d, a, b) == (d.units() == a.units() - b.units()),
    ;
}

/// Whether a product or a difference can be written as a decimal depends on
/// the two numbers, not on the scales with which they are written.
pub proof fn lemma_representable_goes_by_number(
    a: DecimalView,
    b: DecimalView,
    c: DecimalView,
    d: DecimalView,
)
    requires
        a.units() == c.units(),
        b.units() == d.units(),
    ensures
        product_is_representable(a, b) == product_is_representable(c, d),
        difference_is_representable(a, b) == difference_is_representable(c, d),
{
    if product_is_representable(a, b) {
        let p = choose|p: DecimalView| p.valid() && #[trigger] is_product(p, a, b);
        assert(is_product(p, c, d));
    }
    if product_is_representable(c, d) {
        let p = choose|p: DecimalView| p.valid() && #[trigger] is_product(p, c, d);
        assert(is_product(p, a, b));
    }
    if difference_is_representable(a, b) {
        let r = choose|r: DecimalView| r.valid() && #[trigger] is_difference(r, a, b);
        assert(is_difference(r, c, d));
    }
    if difference_is_representable(c, d) {
        let r = choose|r: DecimalView| r.valid() && #[trigger] is_difference(r, c, d);
        assert(is_difference(r, a, b));
    }
}

/// How two integers stand to each other.
pub open spec fn order_of(x: int, y: int) -> Ordering {
    if x < y {
        Ordering::Less
    } else if x == y {
        Ordering::Equal
    } else {
        Ordering::Greater
    }
}

/// Calls `str::parse::<rust_decimal::Decimal>`, that is the crate's
/// `FromStr::from_str`.
///
/// Taken on trust: the outcome depends on the text alone, so that it can be
/// called [`decimal_from_text`]; and a number that comes back has a mantissa
/// of at most 96 bits and a scale of at most 28.
#[verifier::external_body]
fn parse_outside(text: &str) -> (r: Option<Decimal>)
    ensures
        option_view(r) == decimal_from_text(text@),
        r matches Some(d) ==> d@.valid(),
{
    match text.parse::<rust_decimal::Decimal>() {
        Ok(d) => Some(Decimal { mantissa: d.mantissa(), scale: d.scale() }),
        Err(_) => None,
    }
}

/// Calls `rust_decimal::Decimal::cmp`.
///
/// Taken on trust: the crate orders decimals by the numbers they denote,
/// whatever their scales, so that `1.0` and `1.00` compare as equal.
#[verifier::external_body]
fn compare_outside(a: &Decimal, b: &Decimal) -> (r: Ordering)
    requires
        a@.valid(),
        b@.valid(),
    ensures
        r == order_of(a@.units(), b@.units()),
{
    let x = rust_decimal::Decimal::from_i128_with_scale(a.mantissa, a.scale);
    let y = rust_decimal::Decimal::from_i128_with_scale(b.mantissa, b.scale);
    x.cmp(&y)
}

/// Calls `rust_decimal::Decimal::checked_mul`.
///
/// Taken on trust: the outcome depends on the two numbers alone, so that it
/// can be called [`decimal_product`]; a product that comes back is within the
/// limits; and the crate rounds only where it must: where some decimal
/// within the limits denotes the product ([`product_is_representable`]), a
/// product comes back and denotes it exactly.
#[verifier::external_body]
fn multiply_outside(a: &Decimal, b: &Decimal) -> (r: Option<Decimal>)
    requires
        a@.valid(),
        b@.valid(),
    ensures
        option_view(r) == decimal_product(a@, b@),
        r matches Some(p) ==> p@.valid(),
        product_is_representable(a@, b@) ==> r is Some,
        product_is_representable(a@, b@) ==> is_product(option_view(r).unwrap(), a@, b@),
{
    let x = rust_decimal::Decimal::from_i128_with_scale(a.mantissa, a.scale);
    let y = rust_decimal::Decimal::from_i128_with_scale(b.mantissa, b.scale);
    match x.checked_mul(y) {
        Some(p) => Some(Decimal { mantissa: p.mantissa(), scale: p.scale() }),
        None => None,
    }
}

/// Calls `rust_decimal::Decimal::checked_sub`.
///
/// Taken on trust: the outcome depends on the two numbers alone, so that it
/// can be called [`decimal_difference`]; a difference that comes back is
/// within the limits; and the crate rounds only where it must: where some
/// decimal within the limits denotes the difference
/// ([`difference_is_representable`]), a difference comes back and denotes it
/// exactly.
#[verifier::external_body]
fn subtract_outside(a: &Decimal, b: &Decimal) -> (r: Option<Decimal>)
    requires
        a@.valid(),
        b@.valid(),
    ensures
        option_view(r) == decimal_difference(a@, b@),
        r matches Some(d) ==> d@.valid(),
        difference_is_representable(a@, b@) ==> r is Some,
        difference_is_representable(a@, b@) ==> is_difference(option_view(r).unwrap(), a@, b@),
{
    let x = rust_decimal::Decimal::from_i128_with_scale(a.mantissa, a.scale);
    let y = rust_decimal::Decimal::from_i128_with_scale(b.mantissa, b.scale);
    match x.checked_sub(y) {
        Some(d) => Some(Decimal { mantissa: d.mantissa(), scale: d.scale() }),
        None => None,
    }
}

impl Decimal {
    #[verifier::type_invariant]
    closed spec fn within_limits(self) -> bool {
        self@.valid()
    }

    /// The number `num / 10^scale`, or `None` where `num` does not fit in 96
    /// bits or `scale` exceeds 28.
    pub fn try_from_i128_with_scale(num: i128, scale: u32) -> (r: Option<Decimal>)
        ensures
            r is Some <==> (DecimalView { mantissa: num as int, scale: scale as nat }).valid(),
            r matches Some(d) ==> d@ == (DecimalView { mantissa: num as int, scale: scale as nat }),
    {
        if scale > MAX_SCALE || num > MAX_MANTISSA || num < -MAX_MANTISSA {
            None
        } else {
            Some(Decimal { mantissa: num, scale })
        }
    }

    /// The number zero, written without fractional digits.
    pub fn zero() -> (r: Decimal)
        ensures
            r@ == DecimalView::zero(),
    {
        Decimal { mantissa: 0, scale: 0 }
    }

    /// The mantissa: the number is `mantissa / 10^scale`.
    pub fn mantissa(&self) -> (m: i128)
        ensures
            m == self@.mantissa,
            -MAX_MANTISSA <= m <= MAX_MANTISSA,
    {
        proof {
            use_type_invariant(self);
        }
        self.mantissa
    }

    /// The number of fractional digits.
    pub fn scale(&self) -> (s: u32)
        ensures
            s == self@.scale,
            s <= MAX_SCALE,
    {
        proof {
            use_type_invariant(self);
        }
        self.scale
    }

    /// Reads a decimal from a text as `rust_decimal` does.
    pub fn parse(text: &str) -> (r: Option<Decimal>)
        ensures
            option_view(r) == decimal_from_text(text@),
    {
        parse_outside(text)
    }

    /// The lenient reading of one numeric field: a field that could not be
    /// read counts as zero.
    pub fn or_zero(parsed: Option<Decimal>) -> (r: Decimal)
        ensures
            r@ == view_or_zero(option_view(parsed)),
    {
        match parsed {
            Some(d) => d,
            None => Decimal::zero(),
        }
    }

    /// Reads a decimal from a text; a text that `rust_decimal` rejects counts
    /// as zero.
    pub fn parse_or_zero(text: &str) -> (r: Decimal)
        ensures
            r@ == view_or_zero(decimal_from_text(text@)),
    {
        Decimal::or_zero(Decimal::parse(text))
    }

    /// Orders two decimals by the numbers they denote.
    pub fn cmp(&self, other: &Decimal) -> (r: Ordering)
        ensures
            r == order_of(self@.units(), other@.units()),
    {
        proof {
            use_type_invariant(self);
            use_type_invariant(other);
        }
        compare_outside(self, other)
    }

    /// Whether this number is smaller than the other.
    pub fn is_below(&self, other: &Decimal) -> (r: bool)
        ensures
            r == (self@.units() < other@.units()),
    {
        match self.cmp(other) {
            Ordering::Less => true,
            _ => false,
        }
    }

    /// The product as `rust_decimal` computes it: exact where the product can
    /// be written as a decimal, as it can where [`product_fits`]; `None` on
    /// overflow.
    pub fn checked_mul(&self, other: &Decimal) -> (r: Option<Decimal>)
        ensures
            option_view(r) == decimal_product(self@, other@),
            r is Some ==> option_view(r).unwrap().valid(),
            product_is_representable(self@, other@) ==> r is Some && is_product(
                option_view(r).unwrap(),
                self@,
                other@,
            ),
            product_fits(self@, other@) ==> product_is_representable(self@, other@),
    {
        proof {
            use_type_invariant(self);
            use_type_invariant(other);
            if product_fits(self@, other@) {
                lemma_product_that_fits_is_representable(self@, other@);
            }
        }
        multiply_outside(self, other)
    }

    /// The difference as `rust_decimal` computes it: exact where the
    /// difference can be written as a decimal, as it can where
    /// [`difference_fits`]; `None` on overflow.
    pub fn checked_sub(&self, other: &Decimal) -> (r: Option<Decimal>)
        ensures
            option_view(r) == decimal_difference(self@, other@),
            r is Some ==> option_view(r).unwrap().valid(),
            difference_is_representable(self@, other@) ==> r is Some && is_difference(
                option_view(r).unwrap(),
                self@,
                other@,
            ),
            difference_fits(self@, other@) ==> difference_is_representable(self@, other@),
    {
        proof {
            use_type_invariant(self);
            use_type_invariant(other);
            if difference_fits(self@, other@) {
                lemma_difference_that_fits_is_representable(self@, other@);
            }
        }
        subtract_outside(self, other)
    }
}

/// The number a field stands for under the lenient reading: zero where it
/// could not be read.
pub open spec fn view_or_zero(parsed: Option<DecimalView>) -> DecimalView {
    match parsed {
        Some(v) => v,
        None => DecimalView::zero(),
    }
}

impl PartialEq for Decimal {
    /// Two decimals are equal when they denote the same number: `1.0 == 1.00`.
    fn eq(&self, other: &Decimal) -> (r: bool) {
        match self.cmp(other) {
            Ordering::Equal => true,
            _ => false,
        }
    }
}

impl Eq for Decimal {

}

impl vstd::std_specs::cmp::PartialEqSpecImpl for Decimal {
    open spec fn obeys_eq_spec() -> bool {
        true
    }

    open spec fn eq_spec(&self, other: &Decimal) -> bool {
        self@.units() == other@.units()
    }
}

impl PartialOrd for Decimal {
    fn partial_cmp(&self, other: &Decimal) -> (r: Option<Ordering>) {
        Some(self.cmp(other))
    }
}

impl vstd::std_specs::cmp::PartialOrdSpecImpl for Decimal {
    open spec fn obeys_partial_cmp_spec() -> bool {
        true
    }

    open spec fn partial_cmp_spec(&self, other: &Decimal) -> Option<Ordering> {
        Some(order_of(self@.units(), other@.units()))
    }
}

impl Default for Decimal {
    fn default() -> (r: Decimal)
        ensures
            r@ == DecimalView::zero(),
    {
        Decimal::zero()
    }
}

} // verus!
