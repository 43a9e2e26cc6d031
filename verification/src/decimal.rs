//! Exact decimal numbers as plain integers.
//!
//! A [`Decimal`] holds the sign, the 96-bit magnitude and the scale that
//! `rust_decimal` computes with. Arithmetic that rounds is left to that crate;
//! signs, comparison with zero and truncation are computed here.

use vstd::prelude::*;

use crate::text;

verus! {

/// The number `±magnitude / 10^scale`.
#[derive(Debug, Clone, Copy, PartialEq, Eq, Structural)]
pub struct Decimal {
    pub negative: bool,
    pub magnitude: u128,
    pub scale: u32,
}

/// A decimal computation left the representable range.
#[derive(Debug, Clone, Copy, PartialEq, Eq, Structural)]
pub struct Overflow;

pub const MAGNITUDE_LIMIT: u128 = 0x1_0000_0000_0000_0000_0000_0000;

pub const MAX_SCALE: u32 = 28;

/// `10^n`.
pub open spec fn pow10(n: nat) -> int
    decreases n,
{
    if n == 0 {
        1
    } else {
        10 * pow10((n - 1) as nat)
    }
}

impl Decimal {
    /// The magnitude fits 96 bits and the scale is at most 28.
    pub open spec fn wf(self) -> bool {
        self.magnitude < MAGNITUDE_LIMIT && self.scale <= MAX_SCALE
    }

    /// The signed mantissa.
    pub open spec fn mantissa(self) -> int {
        if self.negative {
            -(self.magnitude as int)
        } else {
            self.magnitude as int
        }
    }

    /// Whether the number is greater than zero.
    pub open spec fn positive(self) -> bool {
        !self.negative && self.magnitude > 0
    }

    /// Whether the number is less than zero.
    pub open spec fn below_zero(self) -> bool {
        self.negative && self.magnitude > 0
    }

    /// Whether the number has no fractional part.
    pub open spec fn integral(self) -> bool {
        self.magnitude as int % pow10(self.scale as nat) == 0
    }

    /// The number without its fractional part, rounded toward zero.
    pub open spec fn truncated(self) -> int {
        let whole = self.magnitude as int / pow10(self.scale as nat);
        if self.negative {
            -whole
        } else {
            whole
        }
    }

    /// Whether `self < other` as numbers.
    pub open spec fn less(self, other: Decimal) -> bool {
        self.mantissa() * pow10(other.scale as nat) < other.mantissa() * pow10(self.scale as nat)
    }
}

/// The decimal of a small whole number.
pub open spec fn whole(n: u64) -> Decimal {
    Decimal { negative: false, magnitude: n as u128, scale: 0 }
}

/// The decimal of a signed whole number.
pub open spec fn signed_whole(n: i64) -> Decimal {
    Decimal {
        negative: n < 0,
        magnitude: if n < 0 {
            (-(n as int)) as u128
        } else {
            n as u128
        },
        scale: 0,
    }
}

/// The smaller of two numbers; `a` when they are equal.
pub open spec fn smaller(a: Decimal, b: Decimal) -> Decimal {
    if b.less(a) {
        b
    } else {
        a
    }
}

/// The larger of a number and zero.
pub open spec fn at_least_zero(a: Decimal) -> Decimal {
    if a.below_zero() {
        whole(0)
    } else {
        a
    }
}

/// A number clamped to the range from zero to `top`.
pub open spec fn clamped(a: Decimal, top: Decimal) -> Decimal {
    if a.below_zero() {
        whole(0)
    } else if top.less(a) {
        top
    } else {
        a
    }
}

/// The number, or zero where there is none.
pub open spec fn or_zero(value: Option<Decimal>) -> Decimal {
    match value {
        Some(d) => d,
        None => whole(0),
    }
}

/// A share in percent, from zero to a hundred; `None` where it overflows.
pub open spec fn percent_of(part: Decimal, all: Decimal) -> Option<Decimal> {
    match decimal_product(part, whole(100)) {
        Some(product) => match decimal_quotient(product, all) {
            Some(percent) => Some(clamped(percent, whole(100))),
            None => None,
        },
        None => None,
    }
}

/// What the decimal parser makes of a text; `None` where it rejects it.
pub uninterp spec fn decimal_parsed(source: Seq<char>) -> Option<Decimal>;

/// `str::parse::<rust_decimal::Decimal>`: reads plain or scientific notation.
/// The result is a function of the text alone, and is named `decimal_parsed`.
#[verifier::external_body]
pub(crate) fn parse(source: &str) -> (r: Option<Decimal>)
    ensures
        r == decimal_parsed(source@),
        r is Some ==> r->0.wf(),
{
    source.parse::<rust_decimal::Decimal>().ok().map(|r| Decimal {
        negative: r.is_sign_negative(),
        magnitude: r.mantissa().unsigned_abs(),
        scale: r.scale(),
    })
}

/// What the strict scientific parser makes of a text; `None` where it rejects it.
pub uninterp spec fn decimal_scientific(source: Seq<char>) -> Option<Decimal>;

/// `rust_decimal::Decimal::from_scientific`: reads a text with an exponent and
/// rejects one without. The result is named `decimal_scientific`.
#[verifier::external_body]
fn parse_scientific(source: &str) -> (r: Option<Decimal>)
    ensures
        r == decimal_scientific(source@),
        r is Some ==> r->0.wf(),
{
    rust_decimal::Decimal::from_scientific(source).ok().map(|r| Decimal {
        negative: r.is_sign_negative(),
        magnitude: r.mantissa().unsigned_abs(),
        scale: r.scale(),
    })
}

/// The decimal of a JSON number's text: scientific notation first, then plain.
pub open spec fn number_decimal(source: Seq<char>) -> Option<Decimal> {
    match decimal_scientific(source) {
        Some(value) => Some(value),
        None => decimal_parsed(source),
    }
}

/// Reads the text of a JSON number.
pub fn from_number(source: &str) -> (r: Option<Decimal>)
    ensures
        r == number_decimal(source@),
        r is Some ==> r->0.wf(),
{
    match parse_scientific(source) {
        Some(value) => Some(value),
        None => parse(source),
    }
}

/// The decimal of a JSON number's text: plain notation first, then scientific.
pub open spec fn plain_decimal(source: Seq<char>) -> Option<Decimal> {
    match decimal_parsed(source) {
        Some(value) => Some(value),
        None => decimal_scientific(source),
    }
}

/// Reads the text of a JSON number, plain notation first.
pub fn from_plain_number(source: &str) -> (r: Option<Decimal>)
    ensures
        r == plain_decimal(source@),
        r is Some ==> r->0.wf(),
{
    match parse(source) {
        Some(value) => Some(value),
        None => parse_scientific(source),
    }
}

/// The fractional digits of a number, as many as its scale tells.
pub open spec fn fraction_digits(a: Decimal) -> Seq<char> {
    if a.scale == 0 {
        seq![]
    } else {
        text::padded((a.magnitude as int % pow10(a.scale as nat)) as nat, a.scale as nat)
    }
}

/// The text of a number with exactly `places` fractional digits: further ones are
/// cut off, and missing ones are zeros.
pub open spec fn decimal_fixed(a: Decimal, places: usize) -> Seq<char> {
    let sign = if a.negative {
        "-"@
    } else {
        seq![]
    };
    let fraction = fraction_digits(a);
    let shown = Seq::new(
        places as nat,
        |i: int|
            if i < fraction.len() {
                fraction[i]
            } else {
                '0'
            },
    );
    sign + text::digits((a.magnitude as int / pow10(a.scale as nat)) as nat) + (if places == 0 {
        seq![]
    } else {
        "."@ + shown
    })
}

/// The text of a number with exactly its own fractional digits.
pub open spec fn decimal_text(a: Decimal) -> Seq<char> {
    decimal_fixed(a, a.scale as usize)
}

/// `Display` of `rust_decimal::Decimal` without a precision shows as many
/// fractional digits as the scale tells.
#[verifier::external_body]
pub(crate) fn to_text(a: Decimal) -> (r: String)
    requires
        a.wf(),
    ensures
        r@ == decimal_text(a),
{
    let mut value = rust_decimal::Decimal::from_i128_with_scale(a.magnitude as i128, a.scale);
    value.set_sign_negative(a.negative);
    value.to_string()
}

/// `Display` of `rust_decimal::Decimal` with a precision cuts further fractional
/// digits off and does not round. The formatter's buffer holds 32 bytes: the 29 digits of the
/// largest number, a point and two fractional digits.
#[verifier::external_body]
pub(crate) fn to_fixed(a: Decimal, places: usize) -> (r: String)
    requires
        a.wf(),
        places <= 2,
    ensures
        r@ == decimal_fixed(a, places),
{
    let mut value = rust_decimal::Decimal::from_i128_with_scale(a.magnitude as i128, a.scale);
    value.set_sign_negative(a.negative);
    format!("{:.1$}", value, places)
}

/// A number rounded half to even to at most `places` fractional digits. What is
/// rounded to zero loses its sign.
pub open spec fn decimal_rounded(a: Decimal, places: u32) -> Decimal {
    if a.scale <= places {
        a
    } else if a.magnitude == 0 {
        Decimal { negative: a.negative, magnitude: 0, scale: places }
    } else {
        let unit = pow10((a.scale - places) as nat);
        let kept = a.magnitude as int / unit;
        let cut = a.magnitude as int % unit;
        let up = 2 * cut > unit || (2 * cut == unit && kept % 2 == 1);
        let magnitude = if up {
            kept + 1
        } else {
            kept
        };
        Decimal {
            negative: a.negative && magnitude > 0,
            magnitude: magnitude as u128,
            scale: places,
        }
    }
}

/// `rust_decimal::Decimal::round_dp` rounds half to even.
#[verifier::external_body]
pub(crate) fn round(a: Decimal, places: u32) -> (r: Decimal)
    requires
        a.wf(),
    ensures
        r == decimal_rounded(a, places),
        r.wf(),
{
    let mut value = rust_decimal::Decimal::from_i128_with_scale(a.magnitude as i128, a.scale);
    value.set_sign_negative(a.negative);
    let r = value.round_dp(places);
    Decimal {
        negative: r.is_sign_negative(),
        magnitude: r.mantissa().unsigned_abs(),
        scale: r.scale(),
    }
}

/// A number without trailing fractional zeros, and zero without a sign.
pub open spec fn decimal_normalized(a: Decimal) -> Decimal
    decreases a.scale,
{
    if a.magnitude == 0 {
        whole(0)
    } else if a.scale == 0 || a.magnitude % 10 != 0 {
        a
    } else {
        decimal_normalized(
            Decimal {
                negative: a.negative,
                magnitude: a.magnitude / 10,
                scale: (a.scale - 1) as u32,
            },
        )
    }
}

/// `rust_decimal::Decimal::normalize` drops trailing fractional zeros, and the
/// sign of zero.
#[verifier::external_body]
pub(crate) fn normalize(a: Decimal) -> (r: Decimal)
    requires
        a.wf(),
    ensures
        r == decimal_normalized(a),
        r.wf(),
{
    let mut value = rust_decimal::Decimal::from_i128_with_scale(a.magnitude as i128, a.scale);
    value.set_sign_negative(a.negative);
    let r = value.normalize();
    Decimal {
        negative: r.is_sign_negative(),
        magnitude: r.mantissa().unsigned_abs(),
        scale: r.scale(),
    }
}

/// `rust_decimal` orders decimals as numbers.
#[verifier::external_body]
pub(crate) fn is_less(a: Decimal, b: Decimal) -> (r: bool)
    requires
        a.wf(),
        b.wf(),
    ensures
        r == a.less(b),
{
    let mut left = rust_decimal::Decimal::from_i128_with_scale(a.magnitude as i128, a.scale);
    left.set_sign_negative(a.negative);
    let mut right = rust_decimal::Decimal::from_i128_with_scale(b.magnitude as i128, b.scale);
    right.set_sign_negative(b.negative);
    left < right
}

/// Whether a number is `numerator / denominator` up to one unit of its last digit.
pub open spec fn near(value: Decimal, numerator: int, denominator: int) -> bool {
    let apart = value.mantissa() * denominator - numerator * pow10(value.scale as nat);
    -denominator <= apart <= denominator
}

/// The mantissa of a number at a larger scale.
pub open spec fn aligned(a: Decimal, scale: u32) -> int {
    a.mantissa() * pow10((scale - a.scale) as nat)
}

/// The larger of two scales.
pub open spec fn common_scale(a: Decimal, b: Decimal) -> u32 {
    if a.scale < b.scale {
        b.scale
    } else {
        a.scale
    }
}

/// Whether a mantissa can be represented.
pub open spec fn fits(mantissa: int) -> bool {
    -MAGNITUDE_LIMIT < mantissa < MAGNITUDE_LIMIT
}

/// Whether `r` is the sum of two numbers: exact where all of it can be represented
/// at their larger scale, and the other number where one is zero.
pub open spec fn sum_right(a: Decimal, b: Decimal, r: Option<Decimal>) -> bool {
    let scale = common_scale(a, b);
    let exact = aligned(a, scale) + aligned(b, scale);
    &&& a.magnitude == 0 ==> r == Some(b)
    &&& a.magnitude > 0 && b.magnitude == 0 ==> r == Some(a)
    &&& a.magnitude > 0 && b.magnitude > 0 && fits(aligned(a, scale)) && fits(aligned(b, scale))
        && fits(exact) ==> r is Some && r->0.mantissa() == exact && r->0.scale == scale
}

/// Whether `r` is the difference of two numbers: exact where all of it can be
/// represented at their larger scale.
pub open spec fn difference_right(a: Decimal, b: Decimal, r: Option<Decimal>) -> bool {
    let scale = common_scale(a, b);
    let exact = aligned(a, scale) - aligned(b, scale);
    &&& a.magnitude == 0 ==> r is Some && r->0.mantissa() == -b.mantissa() && r->0.scale == b.scale
    &&& a.magnitude > 0 && b.magnitude == 0 ==> r == Some(a)
    &&& a.magnitude > 0 && b.magnitude > 0 && fits(aligned(a, scale)) && fits(aligned(b, scale))
        && fits(exact) ==> r is Some && r->0.mantissa() == exact && r->0.scale == scale
}

/// Whether `r` is the product of two numbers: exact where it can be represented,
/// and otherwise rounded to its last digit.
pub open spec fn product_right(a: Decimal, b: Decimal, r: Option<Decimal>) -> bool {
    let scale = a.scale + b.scale;
    &&& a.magnitude == 0 || b.magnitude == 0 ==> r == Some(whole(0))
    &&& a.magnitude > 0 && b.magnitude > 0 && a.magnitude * b.magnitude < MAGNITUDE_LIMIT && scale
        <= MAX_SCALE ==> r == Some(
        Decimal {
            negative: a.negative != b.negative,
            magnitude: (a.magnitude * b.magnitude) as u128,
            scale: scale as u32,
        },
    )
    &&& r is Some ==> near(r->0, a.mantissa() * b.mantissa(), pow10(scale as nat))
}

/// Whether `r` is the quotient of two numbers: exact where the mantissa divides and
/// the scales allow it, and otherwise rounded to its last digit.
pub open spec fn quotient_right(a: Decimal, b: Decimal, r: Option<Decimal>) -> bool {
    let part = if b.negative {
        -a.mantissa()
    } else {
        a.mantissa()
    };
    &&& b.magnitude == 0 ==> r is None
    &&& b.magnitude > 0 && a.magnitude == 0 ==> r == Some(whole(0))
    &&& b.magnitude > 0 && a.magnitude > 0 && a.magnitude % b.magnitude == 0 && a.scale >= b.scale
        ==> r == Some(
        Decimal {
            negative: a.negative != b.negative,
            magnitude: a.magnitude / b.magnitude,
            scale: (a.scale - b.scale) as u32,
        },
    )
    &&& r is Some ==> near(
        r->0,
        part * pow10(b.scale as nat),
        b.magnitude * pow10(a.scale as nat),
    )
}

/// What `checked_add` gives; `None` where it overflows.
pub uninterp spec fn decimal_sum(a: Decimal, b: Decimal) -> Option<Decimal>;

/// `rust_decimal::Decimal::checked_add`: the sum of two decimals, `None` on
/// overflow. Its result is named `decimal_sum`; it is exact where the aligned
/// operands and the sum fit 96 bits, and the other operand where one is zero.
#[verifier::external_body]
fn sum_outside(a: Decimal, b: Decimal) -> (r: Option<Decimal>)
    requires
        a.wf(),
        b.wf(),
    ensures
        r == decimal_sum(a, b),
        r is Some ==> r->0.wf(),
        sum_right(a, b, r),
{
    let mut left = rust_decimal::Decimal::from_i128_with_scale(a.magnitude as i128, a.scale);
    left.set_sign_negative(a.negative);
    let mut right = rust_decimal::Decimal::from_i128_with_scale(b.magnitude as i128, b.scale);
    right.set_sign_negative(b.negative);
    left.checked_add(right).map(|r| Decimal {
        negative: r.is_sign_negative(),
        magnitude: r.mantissa().unsigned_abs(),
        scale: r.scale(),
    })
}

/// What `checked_sub` gives; `None` where it overflows.
pub uninterp spec fn decimal_difference(a: Decimal, b: Decimal) -> Option<Decimal>;

/// `rust_decimal::Decimal::checked_sub`: the difference of two decimals, `None`
/// on overflow. Its result is named `decimal_difference`; it is exact where the
/// aligned operands and the difference fit 96 bits.
#[verifier::external_body]
fn difference_outside(a: Decimal, b: Decimal) -> (r: Option<Decimal>)
    requires
        a.wf(),
        b.wf(),
    ensures
        r == decimal_difference(a, b),
        r is Some ==> r->0.wf(),
        difference_right(a, b, r),
{
    let mut left = rust_decimal::Decimal::from_i128_with_scale(a.magnitude as i128, a.scale);
    left.set_sign_negative(a.negative);
    let mut right = rust_decimal::Decimal::from_i128_with_scale(b.magnitude as i128, b.scale);
    right.set_sign_negative(b.negative);
    left.checked_sub(right).map(|r| Decimal {
        negative: r.is_sign_negative(),
        magnitude: r.mantissa().unsigned_abs(),
        scale: r.scale(),
    })
}

/// What `checked_mul` gives; `None` where it overflows.
pub uninterp spec fn decimal_product(a: Decimal, b: Decimal) -> Option<Decimal>;

/// `rust_decimal::Decimal::checked_mul`: the product of two decimals, `None` on
/// overflow. Its result is named `decimal_product`; it is exact where magnitude and
/// scale fit, and otherwise rounded at its last digit. A factor zero gives a zero
/// of scale zero.
#[verifier::external_body]
fn product_outside(a: Decimal, b: Decimal) -> (r: Option<Decimal>)
    requires
        a.wf(),
        b.wf(),
    ensures
        r == decimal_product(a, b),
        r is Some ==> r->0.wf(),
        product_right(a, b, r),
{
    let mut left = rust_decimal::Decimal::from_i128_with_scale(a.magnitude as i128, a.scale);
    left.set_sign_negative(a.negative);
    let mut right = rust_decimal::Decimal::from_i128_with_scale(b.magnitude as i128, b.scale);
    right.set_sign_negative(b.negative);
    left.checked_mul(right).map(|r| Decimal {
        negative: r.is_sign_negative(),
        magnitude: r.mantissa().unsigned_abs(),
        scale: r.scale(),
    })
}

/// What `checked_div` gives; `None` where it overflows.
pub uninterp spec fn decimal_quotient(a: Decimal, b: Decimal) -> Option<Decimal>;

/// `rust_decimal::Decimal::checked_div`: the quotient of two decimals, `None` on
/// overflow or for a zero divisor. Its result is named `decimal_quotient`; it is
/// exact where one magnitude divides the other and the scale stays positive, and
/// otherwise rounded at its last digit. A zero dividend gives a zero of scale zero.
#[verifier::external_body]
fn quotient_outside(a: Decimal, b: Decimal) -> (r: Option<Decimal>)
    requires
        a.wf(),
        b.wf(),
    ensures
        r == decimal_quotient(a, b),
        r is Some ==> r->0.wf(),
        quotient_right(a, b, r),
{
    let mut left = rust_decimal::Decimal::from_i128_with_scale(a.magnitude as i128, a.scale);
    left.set_sign_negative(a.negative);
    let mut right = rust_decimal::Decimal::from_i128_with_scale(b.magnitude as i128, b.scale);
    right.set_sign_negative(b.negative);
    left.checked_div(right).map(|r| Decimal {
        negative: r.is_sign_negative(),
        magnitude: r.mantissa().unsigned_abs(),
        scale: r.scale(),
    })
}

impl Decimal {
    /// The sum; `None` on overflow.
    pub fn plus(self, other: Decimal) -> (r: Option<Decimal>)
        requires
            self.wf(),
            other.wf(),
        ensures
            r == decimal_sum(self, other),
            r is Some ==> r->0.wf(),
            sum_right(self, other, r),
    {
        sum_outside(self, other)
    }

    /// The difference; `None` on overflow.
    pub fn minus(self, other: Decimal) -> (r: Option<Decimal>)
        requires
            self.wf(),
            other.wf(),
        ensures
            r == decimal_difference(self, other),
            r is Some ==> r->0.wf(),
            difference_right(self, other, r),
    {
        difference_outside(self, other)
    }

    /// The product; `None` on overflow.
    pub fn times(self, other: Decimal) -> (r: Option<Decimal>)
        requires
            self.wf(),
            other.wf(),
        ensures
            r == decimal_product(self, other),
            r is Some ==> r->0.wf(),
            product_right(self, other, r),
    {
        product_outside(self, other)
    }

    /// The quotient; `None` on overflow or for a zero divisor.
    pub fn over(self, other: Decimal) -> (r: Option<Decimal>)
        requires
            self.wf(),
            other.wf(),
        ensures
            r == decimal_quotient(self, other),
            r is Some ==> r->0.wf(),
            quotient_right(self, other, r),
    {
        quotient_outside(self, other)
    }

    /// The decimal of a small whole number.
    pub fn of(n: u64) -> (r: Decimal)
        ensures
            r == whole(n),
            r.wf(),
    {
        Decimal { negative: false, magnitude: n as u128, scale: 0 }
    }

    /// The decimal of a signed whole number.
    pub fn of_signed(n: i64) -> (r: Decimal)
        ensures
            r == signed_whole(n),
            r.wf(),
    {
        if n < 0 {
            Decimal { negative: true, magnitude: (-(n as i128)) as u128, scale: 0 }
        } else {
            Decimal { negative: false, magnitude: n as u128, scale: 0 }
        }
    }

    /// The number without its sign.
    pub open spec fn absolute(self) -> Decimal {
        Decimal { negative: false, ..self }
    }

    /// The number without its sign.
    pub fn abs(self) -> (r: Decimal)
        ensures
            r == self.absolute(),
            self.wf() ==> r.wf(),
    {
        Decimal { negative: false, magnitude: self.magnitude, scale: self.scale }
    }

    /// Whether the number is greater than zero.
    pub fn is_positive(self) -> (r: bool)
        ensures
            r == self.positive(),
    {
        !self.negative && self.magnitude > 0
    }

    /// Whether the number is less than zero.
    pub fn is_below_zero(self) -> (r: bool)
        ensures
            r == self.below_zero(),
    {
        self.negative && self.magnitude > 0
    }

    /// Whether the number is zero.
    pub fn is_zero(self) -> (r: bool)
        ensures
            r == (self.magnitude == 0),
    {
        self.magnitude == 0
    }

    /// The smaller of two numbers; `self` when they are equal.
    pub fn min_with(self, other: Decimal) -> (r: Decimal)
        requires
            self.wf(),
            other.wf(),
        ensures
            r == smaller(self, other),
            r.wf(),
    {
        if is_less(other, self) {
            other
        } else {
            self
        }
    }

    /// The larger of the number and zero.
    pub fn floor_zero(self) -> (r: Decimal)
        requires
            self.wf(),
        ensures
            r == at_least_zero(self),
            r.wf(),
    {
        if self.is_below_zero() {
            Decimal::of(0)
        } else {
            self
        }
    }

    /// The number clamped to the range from zero to `top`.
    pub fn clamp_to(self, top: Decimal) -> (r: Decimal)
        requires
            self.wf(),
            top.wf(),
        ensures
            r == clamped(self, top),
            r.wf(),
    {
        if self.is_below_zero() {
            Decimal::of(0)
        } else if is_less(top, self) {
            top
        } else {
            self
        }
    }

    /// `10^scale`.
    fn unit(self) -> (r: u128)
        requires
            self.wf(),
        ensures
            r == pow10(self.scale as nat),
            0 < r <= 10_000_000_000_000_000_000_000_000_000,
    {
        let mut r: u128 = 1;
        let mut i: u32 = 0;
        proof {
            lemma_pow10_bound(self.scale as nat);
        }
        while i < self.scale
            invariant
                i <= self.scale <= MAX_SCALE,
                r == pow10(i as nat),
                0 < r <= 10_000_000_000_000_000_000_000_000_000,
            decreases self.scale - i,
        {
            proof {
                lemma_pow10_bound(i as nat + 1);
            }
            r = r * 10;
            i += 1;
        }
        r
    }

    /// Whether the number has no fractional part.
    pub fn is_integral(self) -> (r: bool)
        requires
            self.wf(),
        ensures
            r == self.integral(),
    {
        self.magnitude % self.unit() == 0
    }

    /// The number without its fractional part, rounded toward zero.
    pub fn trunc(self) -> (r: i128)
        requires
            self.wf(),
        ensures
            r == self.truncated(),
            -(MAGNITUDE_LIMIT as int) < r < MAGNITUDE_LIMIT as int,
    {
        let unit: u128 = self.unit();
        let part: u128 = self.magnitude / unit;
        assert(part <= self.magnitude) by (nonlinear_arith)
            requires
                part == self.magnitude / unit,
                unit > 0,
        ;
        if self.negative {
            -(part as i128)
        } else {
            part as i128
        }
    }

    /// The truncated number where it fits 64 bits.
    pub fn to_i64(self) -> (r: Option<i64>)
        requires
            self.wf(),
        ensures
            match r {
                Some(n) => n == self.truncated(),
                None => !(i64::MIN <= self.truncated() <= i64::MAX),
            },
    {
        let n: i128 = self.trunc();
        if n < i64::MIN as i128 || n > i64::MAX as i128 {
            None
        } else {
            Some(n as i64)
        }
    }
}

proof fn lemma_pow10_bound(n: nat)
    requires
        n <= MAX_SCALE,
    ensures
        0 < pow10(n) <= 10_000_000_000_000_000_000_000_000_000,
{
    reveal_with_fuel(pow10, 30);
}

/// Whether a number is how many percent of a whole a part is: `100 * part / all` up
/// to one unit of its last digit, and exactly where that is a whole number and both
/// have the same scale.
pub open spec fn is_percentage(part: Decimal, all: Decimal, percent: Decimal) -> bool {
    &&& near(
        percent,
        100 * part.mantissa() * pow10(all.scale as nat),
        all.magnitude * pow10(part.scale as nat),
    )
    &&& part.scale == all.scale && !part.negative && (100 * part.magnitude) % (all.magnitude as int)
        == 0 ==> percent.scale == 0 && !percent.negative && percent.magnitude * all.magnitude == 100
        * part.magnitude
}

/// Whether a number is how many percent of a whole a part is, limited to the range
/// from zero to a hundred.
pub open spec fn limited_percentage(part: Decimal, all: Decimal, shown: Decimal) -> bool {
    exists|percent: Decimal| #[trigger]
        is_percentage(part, all, percent) && (if percent.below_zero() {
            shown == whole(0)
        } else if whole(100).less(percent) {
            shown == whole(100)
        } else {
            shown == percent
        })
}

/// A hundred times a part, divided by the whole, is its percentage.
pub proof fn lemma_percentage(part: Decimal, all: Decimal, scaled: Decimal, percent: Decimal)
    requires
        all.positive(),
        part.scale <= MAX_SCALE,
        100 * part.magnitude < MAGNITUDE_LIMIT,
        product_right(part, whole(100), Some(scaled)),
        quotient_right(scaled, all, Some(percent)),
    ensures
        is_percentage(part, all, percent),
{
    let up = pow10(all.scale as nat);
    lemma_pow10_positive(part.scale as nat);
    lemma_pow10_positive(0);
    if part.magnitude == 0 {
        let unit = all.magnitude * pow10(part.scale as nat);
        assert(unit >= 0) by (nonlinear_arith)
            requires
                unit == all.magnitude * pow10(part.scale as nat),
                pow10(part.scale as nat) > 0,
        ;
        assert(percent == whole(0));
        assert(0 * unit == 0 && (100 * 0) * up == 0 && 0 * pow10(0) == 0) by (nonlinear_arith);
        assert(0 * all.magnitude == 0) by (nonlinear_arith);
    } else {
        let hundred = whole(100).magnitude;
        assert(part.magnitude * hundred == 100 * part.magnitude) by (nonlinear_arith)
            requires
                hundred == 100,
        ;
        assert(scaled.mantissa() == 100 * part.mantissa());
        assert(scaled.scale == part.scale);
        if part.scale == all.scale && !part.negative && (100 * part.magnitude) % (
        all.magnitude as int) == 0 {
            assert(percent.magnitude == scaled.magnitude / all.magnitude);
            assert(percent.magnitude * all.magnitude == scaled.magnitude) by (nonlinear_arith)
                requires
                    all.magnitude > 0,
                    scaled.magnitude % all.magnitude == 0,
                    percent.magnitude == scaled.magnitude / all.magnitude,
            ;
        }
    }
}

/// Whether the outside crate computes what its operations are named for, on all
/// numbers.
pub open spec fn computes() -> bool {
    &&& forall|a: Decimal, b: Decimal|
        a.wf() && b.wf() ==> sum_right(a, b, #[trigger] decimal_sum(a, b)) && (decimal_sum(
            a,
            b,
        ) is Some ==> decimal_sum(a, b)->0.wf())
    &&& forall|a: Decimal, b: Decimal|
        a.wf() && b.wf() ==> difference_right(a, b, #[trigger] decimal_difference(a, b)) && (
        decimal_difference(a, b) is Some ==> decimal_difference(a, b)->0.wf())
    &&& forall|a: Decimal, b: Decimal|
        a.wf() && b.wf() ==> product_right(a, b, #[trigger] decimal_product(a, b)) && (
        decimal_product(a, b) is Some ==> decimal_product(a, b)->0.wf())
    &&& forall|a: Decimal, b: Decimal|
        a.wf() && b.wf() ==> quotient_right(a, b, #[trigger] decimal_quotient(a, b)) && (
        decimal_quotient(a, b) is Some ==> decimal_quotient(a, b)->0.wf())
}

/// A share in percent is a hundred times the part over the whole, limited to the
/// range from zero to a hundred.
pub proof fn law_percentages_are_shares(part: Decimal, all: Decimal)
    requires
        computes(),
        part.wf(),
        all.wf(),
        all.positive(),
        100 * part.magnitude < MAGNITUDE_LIMIT,
        percent_of(part, all) is Some,
    ensures
        limited_percentage(part, all, percent_of(part, all)->0),
{
    let scaled = decimal_product(part, whole(100))->0;
    lemma_percentage(part, all, scaled, decimal_quotient(scaled, all)->0);
}

impl Decimal {
    /// How many percent of a whole this part is, from zero to a hundred.
    pub fn percent_of_whole(self, all: Decimal) -> (r: Option<Decimal>)
        requires
            self.wf(),
            all.wf(),
        ensures
            r == percent_of(self, all),
            r is Some ==> r->0.wf(),
            r is Some && all.positive() && 100 * self.magnitude < MAGNITUDE_LIMIT
                ==> limited_percentage(self, all, r->0),
    {
        match self.times(Decimal::of(100)) {
            Some(product) => match product.over(all) {
                Some(percent) => {
                    proof {
                        if all.positive() && 100 * self.magnitude < MAGNITUDE_LIMIT {
                            lemma_percentage(self, all, product, percent);
                        }
                    }
                    Some(percent.clamp_to(Decimal::of(100)))
                },
                None => None,
            },
            None => None,
        }
    }
}

/// A clamped number is never below zero, and never above the bound.
pub proof fn law_clamped_in_range(a: Decimal, top: Decimal)
    requires
        top.positive(),
    ensures
        !clamped(a, top).below_zero(),
        !top.less(clamped(a, top)),
{
    lemma_pow10_positive(top.scale as nat);
    lemma_pow10_positive(0);
    if a.below_zero() {
        let x = top.mantissa() * pow10(0);
        assert(x > 0) by (nonlinear_arith)
            requires
                x == top.mantissa() * pow10(0),
                top.mantissa() > 0,
                pow10(0) > 0,
        ;
        assert(whole(0).mantissa() * pow10(top.scale as nat) == 0) by (nonlinear_arith)
            requires
                whole(0).mantissa() == 0,
        ;
    }
}

pub proof fn lemma_pow10_positive(n: nat)
    ensures
        pow10(n) > 0,
    decreases n,
{
    if n > 0 {
        lemma_pow10_positive((n - 1) as nat);
    }
}

/// Rounding keeps a number of few digits, and otherwise gives one that is at most
/// half a unit away, the even one where two are.
pub proof fn law_rounding_is_half_to_even(a: Decimal, places: u32)
    requires
        a.wf(),
    ensures
        ({
            let r = decimal_rounded(a, places);
            let unit = pow10((a.scale - places) as nat);
            &&& a.scale <= places ==> r == a
            &&& a.scale > places ==> {
                &&& r.scale == places
                &&& r.magnitude > 0 ==> r.negative == a.negative
                &&& -unit <= 2 * (r.magnitude * unit - a.magnitude) <= unit
                &&& 2 * (r.magnitude * unit - a.magnitude) == unit || 2 * (r.magnitude * unit
                    - a.magnitude) == -unit ==> r.magnitude % 2 == 0
            }
        }),
{
    if a.scale > places {
        let unit = pow10((a.scale - places) as nat);
        lemma_pow10_positive((a.scale - places) as nat);
        let m = a.magnitude as int;
        let kept = m / unit;
        let cut = m % unit;
        assert(m == kept * unit + cut && 0 <= cut < unit && 0 <= kept <= m) by (nonlinear_arith)
            requires
                unit > 0,
                m >= 0,
                kept == m / unit,
                cut == m % unit,
        ;
        let r = decimal_rounded(a, places);
        if m == 0 {
            assert(0 * unit == 0) by (nonlinear_arith);
        } else {
            assert((kept + 1) * unit == kept * unit + unit) by (nonlinear_arith);
            assert(r.magnitude == kept || r.magnitude == kept + 1);
        }
    }
}

/// The smaller of two numbers is one of them and no greater than the other; nothing
/// below zero is left where zero is the least.
pub proof fn law_least_and_zero(a: Decimal, b: Decimal)
    ensures
        smaller(a, b) == a || smaller(a, b) == b,
        !b.less(smaller(a, b)),
        !a.less(smaller(a, b)),
        at_least_zero(a) == a || at_least_zero(a) == whole(0),
        !at_least_zero(a).below_zero(),
        a.positive() ==> at_least_zero(a) == a,
        a.below_zero() ==> at_least_zero(a) == whole(0),
{
}

/// Whole numbers are ordered and read as what they count.
pub proof fn law_whole_numbers_count(n: u64, m: u64, k: i64)
    ensures
        whole(n).less(whole(m)) <==> n < m,
        whole(n).truncated() == n,
        whole(n).integral(),
        signed_whole(k).truncated() == k,
        signed_whole(k).below_zero() <==> k < 0,
        signed_whole(k).positive() <==> k > 0,
{
    assert(pow10(0) == 1);
    assert(n as int * pow10(0) == n && m as int * pow10(0) == m) by (nonlinear_arith)
        requires
            pow10(0) == 1,
    ;
}

} // verus!
