//! Exact decimal amounts, held as a mantissa and a power-of-ten scale.
//!
//! The arithmetic itself is `rust_decimal`'s: the library moves amounts in
//! and out of `rust_decimal::Decimal` one for one and calls its operations.
use vstd::prelude::*;

use csv::StringRecord;
use rust_decimal::Decimal;

verus! {

/// Largest mantissa magnitude a `rust_decimal::Decimal` can hold (2^96 - 1).
pub const MAX_MANTISSA: i128 = 0xFFFF_FFFF_FFFF_FFFF_FFFF_FFFF;

/// Largest scale a `rust_decimal::Decimal` can hold.
pub const MAX_SCALE: u32 = 28;

/// A decimal number `mantissa / 10^scale`, in the range `rust_decimal` allows.
#[derive(Clone, Copy, Debug)]
pub struct Amount {
    mantissa: i128,
    scale: u32,
}

/// True when `(m, s)` is a mantissa and scale that `rust_decimal` can represent.
pub open spec fn representable(m: int, s: int) -> bool {
    -MAX_MANTISSA <= m <= MAX_MANTISSA && 0 <= s <= MAX_SCALE
}

/// `10^n`.
pub open spec fn pow10(n: nat) -> int
    decreases n,
{
    if n == 0 {
        1
    } else {
        10 * pow10((n - 1) as nat)
    }
}

impl Amount {
    #[verifier::type_invariant]
    spec fn inv(self) -> bool {
        representable(self.mantissa as int, self.scale as int)
    }

    /// The mantissa of the amount.
    pub closed spec fn spec_mantissa(self) -> int {
        self.mantissa as int
    }

    /// The power-of-ten scale of the amount.
    pub closed spec fn spec_scale(self) -> int {
        self.scale as int
    }

    /// The amount as a (mantissa, scale) pair.
    pub open spec fn parts(self) -> (int, int) {
        (self.spec_mantissa(), self.spec_scale())
    }

    /// Builds `mantissa / 10^scale`; `None` when `rust_decimal` cannot hold it.
    pub fn from_parts(mantissa: i128, scale: u32) -> (r: Option<Amount>)
        ensures
            r is Some <==> representable(mantissa as int, scale as int),
            r matches Some(a) ==> a.parts() == (mantissa as int, scale as int),
    {
        if -MAX_MANTISSA <= mantissa && mantissa <= MAX_MANTISSA && scale <= MAX_SCALE {
            Some(Amount { mantissa, scale })
        } else {
            None
        }
    }

    /// The integer `n` as an amount of scale 0 (as `Decimal::from(i32)` gives it).
    pub fn from_i32(n: i32) -> (r: Amount)
        ensures
            r.parts() == (n as int, 0int),
    {
        Amount { mantissa: n as i128, scale: 0 }
    }

    /// The integer `n` as an amount of scale 0 (as `Decimal::from(u32)` gives it).
    pub fn from_u32(n: u32) -> (r: Amount)
        ensures
            r.parts() == (n as int, 0int),
    {
        Amount { mantissa: n as i128, scale: 0 }
    }

    /// The mantissa.
    pub fn mantissa(&self) -> (r: i128)
        ensures
            r == self.spec_mantissa(),
    {
        self.mantissa
    }

    /// The scale.
    pub fn scale(&self) -> (r: u32)
        ensures
            r == self.spec_scale(),
    {
        self.scale
    }
}

/// The (mantissa, scale) that `<Decimal as FromStr>::from_str` gives for a text,
/// or `None` where it returns an error.
pub uninterp spec fn decimal_from_str(text: Seq<char>) -> Option<(int, int)>;

/// The (mantissa, scale) of `Decimal::checked_mul` on two amounts given by
/// their (mantissa, scale), or `None` where it reports overflow.
pub uninterp spec fn decimal_checked_mul(m1: int, s1: int, m2: int, s2: int) -> Option<(int, int)>;

/// The (mantissa, scale) of `Decimal::checked_div`, or `None` where it fails.
pub uninterp spec fn decimal_checked_div(m1: int, s1: int, m2: int, s2: int) -> Option<(int, int)>;

/// The decimal digits of `n`, most significant first; none for 0.
pub open spec fn digits(n: nat) -> Seq<char>
    decreases n,
{
    if n == 0 {
        Seq::empty()
    } else {
        digits(n / 10).push(((n % 10) + 48) as char)
    }
}

/// `text` with `0`s put in front until it is `width` long.
pub open spec fn zero_filled(text: Seq<char>, width: nat) -> Seq<char> {
    if text.len() >= width {
        text
    } else {
        Seq::new((width - text.len()) as nat, |i: int| '0') + text
    }
}

/// The text that `Decimal`'s `Display` (through `to_string`) writes for
/// `m / 10^s`: a `-` for a negative mantissa, the digits of `|m|` filled with
/// `0`s to at least `s` digits, a `.` before the last `s` of them when `s` is
/// not 0, and a `0` before the point (or alone) when nothing else is there.
/// E.g. (30000, 2) gives `300.00`, (-5, 2) gives `-0.05`, (0, 0) gives `0`.
pub open spec fn decimal_display(m: int, s: int) -> Seq<char> {
    let magnitude: nat = if m < 0 { (-m) as nat } else { m as nat };
    let all = zero_filled(digits(magnitude), s as nat);
    let whole = all.subrange(0, all.len() - s);
    let fraction = all.subrange(all.len() - s, all.len() as int);
    let int_part = if whole.len() == 0 { seq!['0'] } else { whole };
    (if m < 0 { seq!['-'] } else { Seq::empty() }) + (if s == 0 { int_part } else { int_part + seq!['.'] + fraction })
}

/// The two amounts are the same number (`Decimal`'s equality compares
/// values, whatever the scales).
pub open spec fn same_value(a: (int, int), b: (int, int)) -> bool {
    a.0 * pow10(b.1 as nat) == b.0 * pow10(a.1 as nat)
}

/// Parses a decimal with `rust_decimal`'s `FromStr`.
///
/// Trusted: `<Decimal as FromStr>::from_str`; the value is read out as
/// mantissa and scale one for one. The result is named by `decimal_from_str`.
#[verifier::external_body]
fn decimal_parse(text: &str) -> (r: Option<Amount>)
    ensures
        r is Some <==> decimal_from_str(text@) is Some,
        r matches Some(a) ==> decimal_from_str(text@) == Some(a.parts()),
{
    match text.parse::<Decimal>() {
        Ok(d) => Some(Amount { mantissa: d.mantissa(), scale: d.scale() }),
        Err(_) => None,
    }
}

/// Product with `Decimal::checked_mul`; `None` on overflow.
///
/// Trusted: `Decimal::checked_mul` (the amounts enter through
/// `Decimal::from_i128_with_scale`, which cannot fail on them). Besides the
/// name, the contract states what `rust_decimal`'s `mul_impl` shows: a zero
/// factor gives zero at scale 0, and a product whose mantissa fits in 96 bits
/// with a scale sum of at most 28 is exact (mantissas multiplied, scales
/// added).
#[verifier::external_body]
fn decimal_mul(x: &Amount, y: &Amount) -> (r: Option<Amount>)
    ensures
        r is Some <==> decimal_checked_mul(x.spec_mantissa(), x.spec_scale(), y.spec_mantissa(), y.spec_scale()) is Some,
        r matches Some(a) ==> decimal_checked_mul(x.spec_mantissa(), x.spec_scale(), y.spec_mantissa(), y.spec_scale()) == Some(a.parts()),
        x.spec_mantissa() == 0 || y.spec_mantissa() == 0 ==> r is Some && r.unwrap().parts() == (0int, 0int),
        x.spec_mantissa() != 0 && y.spec_mantissa() != 0
            && x.spec_scale() + y.spec_scale() <= MAX_SCALE
            && -MAX_MANTISSA <= x.spec_mantissa() * y.spec_mantissa() <= MAX_MANTISSA
            ==> r is Some && r.unwrap().parts() == (x.spec_mantissa() * y.spec_mantissa(), x.spec_scale() + y.spec_scale()),
{
    let a = Decimal::from_i128_with_scale(x.mantissa, x.scale);
    let b = Decimal::from_i128_with_scale(y.mantissa, y.scale);
    match a.checked_mul(b) {
        Some(d) => Some(Amount { mantissa: d.mantissa(), scale: d.scale() }),
        None => None,
    }
}

/// Quotient with `Decimal::checked_div`; `None` when the divisor is zero or
/// the quotient overflows.
///
/// Trusted: `Decimal::checked_div`. Besides the name, the contract states
/// what `div_impl` shows: a zero divisor gives `None`, a zero dividend
/// over a non-zero divisor gives zero at scale 0, and a division by a whole
/// number from 1 to `u32::MAX` succeeds (its quotient is no larger than the
/// dividend, and the remainder loop only rounds or rescales).
#[verifier::external_body]
fn decimal_div(x: &Amount, y: &Amount) -> (r: Option<Amount>)
    ensures
        r is Some <==> decimal_checked_div(x.spec_mantissa(), x.spec_scale(), y.spec_mantissa(), y.spec_scale()) is Some,
        r matches Some(a) ==> decimal_checked_div(x.spec_mantissa(), x.spec_scale(), y.spec_mantissa(), y.spec_scale()) == Some(a.parts()),
        y.spec_mantissa() == 0 ==> r is None,
        x.spec_mantissa() == 0 && y.spec_mantissa() != 0 ==> r is Some && r.unwrap().parts() == (0int, 0int),
        y.spec_scale() == 0 && 0 < y.spec_mantissa() <= u32::MAX ==> r is Some,
{
    let a = Decimal::from_i128_with_scale(x.mantissa, x.scale);
    let b = Decimal::from_i128_with_scale(y.mantissa, y.scale);
    match a.checked_div(b) {
        Some(d) => Some(Amount { mantissa: d.mantissa(), scale: d.scale() }),
        None => None,
    }
}

/// The text that `Decimal`'s `Display` writes.
///
/// Trusted: `<Decimal as ToString>::to_string` (`Display::fmt` through
/// `str::to_str_internal` and `pad_integral`, with no precision given); the
/// text is spelled out by `decimal_display`.
#[verifier::external_body]
fn decimal_to_text(x: &Amount) -> (r: String)
    ensures
        r@ == decimal_display(x.spec_mantissa(), x.spec_scale()),
{
    Decimal::from_i128_with_scale(x.mantissa, x.scale).to_string()
}

/// Whether two amounts are equal as `Decimal`s.
///
/// Trusted: `<Decimal as PartialEq>::eq`, which compares the numbers
/// (rescaling as needed), as `same_value` states.
#[verifier::external_body]
fn decimal_eq(x: &Amount, y: &Amount) -> (r: bool)
    ensures
        r == same_value(x.parts(), y.parts()),
{
    Decimal::from_i128_with_scale(x.mantissa, x.scale) == Decimal::from_i128_with_scale(y.mantissa, y.scale)
}

impl Amount {
    /// Parses `text` as `rust_decimal` does (`Decimal::from_str`).
    pub fn parse(text: &str) -> (r: Option<Amount>)
        ensures
            r is Some <==> decimal_from_str(text@) is Some,
            r matches Some(a) ==> decimal_from_str(text@) == Some(a.parts()),
    {
        decimal_parse(text)
    }

    /// The product, as `Decimal::checked_mul` gives it; `None` on overflow.
    /// A zero factor gives zero at scale 0; a product that fits in 96 bits
    /// with a scale sum of at most 28 is exact.
    pub fn checked_mul(&self, other: &Amount) -> (r: Option<Amount>)
        ensures
            r is Some <==> decimal_checked_mul(self.spec_mantissa(), self.spec_scale(), other.spec_mantissa(), other.spec_scale()) is Some,
            r matches Some(a) ==> decimal_checked_mul(self.spec_mantissa(), self.spec_scale(), other.spec_mantissa(), other.spec_scale()) == Some(a.parts()),
            self.spec_mantissa() == 0 || other.spec_mantissa() == 0 ==> r is Some && r.unwrap().parts() == (0int, 0int),
            self.spec_mantissa() != 0 && other.spec_mantissa() != 0
                && self.spec_scale() + other.spec_scale() <= MAX_SCALE
                && -MAX_MANTISSA <= self.spec_mantissa() * other.spec_mantissa() <= MAX_MANTISSA
                ==> r is Some && r.unwrap().parts() == (self.spec_mantissa() * other.spec_mantissa(), self.spec_scale() + other.spec_scale()),
    {
        decimal_mul(self, other)
    }

    /// The quotient, as `Decimal::checked_div` gives it; `None` when the
    /// divisor is zero or the quotient overflows. Dividing by a whole number
    /// from 1 to `u32::MAX` always succeeds.
    pub fn checked_div(&self, other: &Amount) -> (r: Option<Amount>)
        ensures
            r is Some <==> decimal_checked_div(self.spec_mantissa(), self.spec_scale(), other.spec_mantissa(), other.spec_scale()) is Some,
            r matches Some(a) ==> decimal_checked_div(self.spec_mantissa(), self.spec_scale(), other.spec_mantissa(), other.spec_scale()) == Some(a.parts()),
            other.spec_mantissa() == 0 ==> r is None,
            self.spec_mantissa() == 0 && other.spec_mantissa() != 0 ==> r is Some && r.unwrap().parts() == (0int, 0int),
            other.spec_scale() == 0 && 0 < other.spec_mantissa() <= u32::MAX ==> r is Some,
    {
        decimal_div(self, other)
    }

    /// The amount written as `Decimal`'s `Display` writes it (e.g. `300.00`).
    pub fn to_text(&self) -> (r: String)
        ensures
            r@ == decimal_display(self.spec_mantissa(), self.spec_scale()),
    {
        decimal_to_text(self)
    }

    /// The two amounts are the same number.
    pub fn equals(&self, other: &Amount) -> (r: bool)
        ensures
            r == same_value(self.parts(), other.parts()),
    {
        decimal_eq(self, other)
    }
}

/// The (mantissa, scale) that deserializing one field as a
/// `rust_decimal::Decimal` with `csv`'s deserializer gives.
pub uninterp spec fn csv_decimal_field(text: Seq<char>) -> Option<(int, int)>;

/// Decodes one field as a decimal, as `csv` deserializes a `Decimal` field
/// (through its type-inferring `deserialize_any`).
///
/// Trusted: `csv::StringRecord::deserialize::<Decimal>` on a one-field
/// record; the value is read out as mantissa and scale one for one.
#[verifier::external_body]
pub(crate) fn decode_decimal_field(text: &str) -> (r: Option<Amount>)
    ensures
        r is Some <==> csv_decimal_field(text@) is Some,
        r matches Some(a) ==> csv_decimal_field(text@) == Some(a.parts()),
{
    match StringRecord::from(vec![text]).deserialize::<Decimal>(None) {
        Ok(d) => Some(Amount { mantissa: d.mantissa(), scale: d.scale() }),
        Err(_) => None,
    }
}

} // verus!
