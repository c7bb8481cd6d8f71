//! Money amounts: exact decimals with at most four fractional digits.
//!
//! An amount is held as a whole number of ten-thousandths, so that sums and
//! differences are integer arithmetic and never round. Beside the value it
//! keeps the number of fractional digits it is shown with, which is the
//! largest number of digits among the numerals it was made from.

use crate::decimal::{
    decimal_from_str, decimal_text, display_text, parsed_decimal, MAX_MANTISSA,
};
use crate::text::{is_numeral, is_numeral_text, trim, trimmed};
use vstd::prelude::*;

verus! {

/// The number of fractional digits that an amount can hold.
pub const PLACES: u32 = 4;

/// The largest magnitude of an amount, in ten-thousandths: `10^37`.
pub const MAX_UNITS: i128 = 10_000_000_000_000_000_000_000_000_000_000_000_000;

/// How many ten-thousandths the last of `places` fractional digits counts:
/// `10^(4 - places)`.
pub open spec fn unit_step(places: nat) -> int {
    if places == 0 {
        10000
    } else if places == 1 {
        1000
    } else if places == 2 {
        100
    } else if places == 3 {
        10
    } else {
        1
    }
}

/// The mathematical value of an amount.
pub struct Money {
    /// The value, in ten-thousandths.
    pub units: int,
    /// The number of fractional digits the value is shown with.
    pub places: nat,
}

impl Money {
    /// An amount is well formed if it has at most four fractional digits, is
    /// a multiple of the last digit it shows, and lies within `MAX_UNITS`.
    pub open spec fn wf(self) -> bool {
        &&& self.places <= PLACES
        &&& -MAX_UNITS <= self.units <= MAX_UNITS
        &&& self.units % unit_step(self.places) == 0
    }

    /// Zero, shown without fractional digits.
    pub open spec fn zero() -> Money {
        Money { units: 0, places: 0 }
    }

    /// The sum, shown with the digits of the longer operand.
    pub open spec fn plus(self, other: Money) -> Money {
        Money {
            units: self.units + other.units,
            places: if self.places >= other.places {
                self.places
            } else {
                other.places
            },
        }
    }

    /// The difference, shown with the digits of the longer operand.
    pub open spec fn minus(self, other: Money) -> Money {
        Money {
            units: self.units - other.units,
            places: if self.places >= other.places {
                self.places
            } else {
                other.places
            },
        }
    }

    /// The integer that, divided by `10^places`, gives the value.
    pub open spec fn mantissa(self) -> int {
        self.units / unit_step(self.places)
    }

    /// Whether the value lies within `MAX_UNITS`.
    pub open spec fn in_range(self) -> bool {
        -MAX_UNITS <= self.units <= MAX_UNITS
    }

    /// Whether the amount can be printed: its mantissa has at most 96 bits.
    pub open spec fn has_text(self) -> bool {
        -MAX_MANTISSA <= self.mantissa() <= MAX_MANTISSA
    }

    /// The amount as text: what a decimal with the amount's mantissa and as
    /// many fractional digits as the amount is shown with prints as.
    pub open spec fn text(self) -> Seq<char> {
        decimal_text(self.mantissa(), self.places)
    }
}

/// The sum and the difference of two multiples of `m` are multiples of `m`.
proof fn lemma_multiples_add(x: int, y: int, m: int)
    requires
        m > 0,
        x % m == 0,
        y % m == 0,
    ensures
        (x + y) % m == 0,
        (x - y) % m == 0,
{
    vstd::arithmetic::div_mod::lemma_add_mod_noop(x, y, m);
    vstd::arithmetic::div_mod::lemma_sub_mod_noop(x, y, m);
    vstd::arithmetic::div_mod::lemma_small_mod(0, m as nat);
}

/// A multiple of the step of a shorter amount is a multiple of the step of
/// any longer one.
proof fn lemma_finer_step(units: int, places: nat, finer: nat)
    requires
        places <= finer <= PLACES,
        units % unit_step(places) == 0,
    ensures
        units % unit_step(finer) == 0,
    decreases finer - places,
{
    if places < finer {
        let next = (places + 1) as nat;
        assert(unit_step(places) == unit_step(next) * 10);
        vstd::arithmetic::div_mod::lemma_mod_mod(units, unit_step(next), 10);
        vstd::arithmetic::div_mod::lemma_small_mod(0, unit_step(next) as nat);
        lemma_finer_step(units, next, finer);
    }
}

/// The sum and the difference of well-formed amounts are well formed as soon
/// as they are in range.
pub proof fn lemma_sum_wf(a: Money, b: Money)
    requires
        a.wf(),
        b.wf(),
    ensures
        a.plus(b).in_range() ==> a.plus(b).wf(),
        a.minus(b).in_range() ==> a.minus(b).wf(),
{
    let places = a.plus(b).places;
    lemma_finer_step(a.units, a.places, places);
    lemma_finer_step(b.units, b.places, places);
    lemma_multiples_add(a.units, b.units, unit_step(places));
}

/// What multiplying a mantissa by the step of its last digit gives: a multiple
/// of that step, which divides back to the mantissa, and which is in range
/// exactly when the mantissa is within `MAX_UNITS` divided by the step.
proof fn lemma_scaled(mantissa: int, places: nat)
    requires
        places <= PLACES,
    ensures
        (mantissa * unit_step(places)) % unit_step(places) == 0,
        (mantissa * unit_step(places)) / unit_step(places) == mantissa,
        -MAX_UNITS <= mantissa * unit_step(places) <= MAX_UNITS <==> -((MAX_UNITS as int)
            / unit_step(places)) <= mantissa <= (MAX_UNITS as int) / unit_step(places),
{
    let step = unit_step(places);
    let product = mantissa * step;
    if places == 0 {
        assert(product == mantissa * 10000) by (nonlinear_arith)
            requires
                product == mantissa * step,
                step == 10000,
        ;
    } else if places == 1 {
        assert(product == mantissa * 1000) by (nonlinear_arith)
            requires
                product == mantissa * step,
                step == 1000,
        ;
    } else if places == 2 {
        assert(product == mantissa * 100) by (nonlinear_arith)
            requires
                product == mantissa * step,
                step == 100,
        ;
    } else if places == 3 {
        assert(product == mantissa * 10) by (nonlinear_arith)
            requires
                product == mantissa * step,
                step == 10,
        ;
    } else {
        assert(product == mantissa) by (nonlinear_arith)
            requires
                product == mantissa * step,
                step == 1,
        ;
    }
}

/// Why a text is no valid amount.
#[derive(Debug, Clone, Copy, PartialEq, Eq, Structural)]
pub enum ParseError {
    /// Nothing is left of the text once it is trimmed.
    Empty,
    /// The text is no decimal numeral.
    Malformed,
    /// The value is zero or negative.
    NonPositive,
    /// The value has more than four fractional digits.
    TooPrecise,
}

impl ParseError {
    /// What the error says, in words.
    pub open spec fn message_of(self) -> Seq<char> {
        match self {
            ParseError::Empty => "empty amount"@,
            ParseError::Malformed => "bad amount"@,
            ParseError::NonPositive => "amount must be positive"@,
            ParseError::TooPrecise => "too many decimal places"@,
        }
    }

    /// What the error says, in words.
    pub fn message(&self) -> (r: String)
        ensures
            r@ == self.message_of(),
    {
        match self {
            ParseError::Empty => "empty amount".to_owned(),
            ParseError::Malformed => "bad amount".to_owned(),
            ParseError::NonPositive => "amount must be positive".to_owned(),
            ParseError::TooPrecise => "too many decimal places".to_owned(),
        }
    }
}

/// The amount that a decimal stands for: positive decimals with at most four
/// fractional digits are amounts, with the value unchanged.
pub open spec fn decimal_amount(mantissa: int, scale: nat) -> Result<Money, ParseError> {
    if mantissa <= 0 {
        Err(ParseError::NonPositive)
    } else if scale > PLACES {
        Err(ParseError::TooPrecise)
    } else {
        Ok(Money { units: mantissa * unit_step(scale), places: scale })
    }
}

/// The amount that a text stands for.
pub open spec fn parsed_amount(text: Seq<char>) -> Result<Money, ParseError> {
    let t = trimmed(text);
    if t.len() == 0 {
        Err(ParseError::Empty)
    } else if !is_numeral(t) {
        Err(ParseError::Malformed)
    } else {
        match parsed_decimal(t) {
            None => Err(ParseError::Malformed),
            Some(parts) => decimal_amount(parts.0 as int, parts.1 as nat),
        }
    }
}

/// The amount that an event states: that of its text, where it has a text and
/// the text is a valid amount.
pub open spec fn stated_amount(text: Option<String>) -> Option<Money> {
    match text {
        Some(s) => match parsed_amount(s@) {
            Ok(amount) => Some(amount),
            Err(_) => None,
        },
        None => None,
    }
}

/// An exact decimal amount with at most four fractional digits.
#[derive(Debug, Clone, Copy)]
pub struct Amount {
    units: i128,
    places: u32,
}

impl View for Amount {
    type V = Money;

    closed spec fn view(&self) -> Money {
        Money { units: self.units as int, places: self.places as nat }
    }
}

/// The exec form of `unit_step`.
fn step(places: u32) -> (r: i128)
    requires
        places <= PLACES,
    ensures
        r == unit_step(places as nat),
{
    if places == 0 {
        10000
    } else if places == 1 {
        1000
    } else if places == 2 {
        100
    } else if places == 3 {
        10
    } else {
        1
    }
}

impl Amount {
    /// Every amount is well formed.
    #[verifier::type_invariant]
    pub open spec fn well_formed(self) -> bool {
        self@.wf()
    }

    /// Zero.
    pub fn zero() -> (r: Amount)
        ensures
            r@ == Money::zero(),
    {
        Amount { units: 0, places: 0 }
    }

    /// The amount `mantissa / 10^places`, where that is an amount.
    pub fn from_parts(mantissa: i128, places: u32) -> (r: Option<Amount>)
        ensures
            r is Some <==> places <= PLACES && -MAX_UNITS <= mantissa * unit_step(places as nat)
                <= MAX_UNITS,
            r matches Some(a) ==> a@ == (Money {
                units: mantissa * unit_step(places as nat),
                places: places as nat,
            }),
    {
        if places > PLACES {
            return None;
        }
        let weight: i128 = step(places);
        let limit: i128 = MAX_UNITS / weight;
        proof {
            lemma_scaled(mantissa as int, places as nat);
        }
        if mantissa > limit || mantissa < -limit {
            return None;
        }
        Some(Amount { units: mantissa * weight, places })
    }

    /// The value in ten-thousandths.
    pub fn units(&self) -> (r: i128)
        ensures
            r == self@.units,
    {
        self.units
    }

    /// The number of fractional digits the amount is shown with.
    pub fn places(&self) -> (r: u32)
        ensures
            r == self@.places,
    {
        self.places
    }

    /// The integer that, divided by `10^places`, gives the value.
    pub fn mantissa(&self) -> (r: i128)
        ensures
            r == self@.mantissa(),
    {
        proof {
            use_type_invariant(self);
        }
        let weight: i128 = step(self.places);
        if self.units >= 0 {
            self.units / weight
        } else {
            -((-self.units) / weight)
        }
    }

    /// The sum, or `None` where it is out of range.
    pub fn checked_plus(&self, other: &Amount) -> (r: Option<Amount>)
        ensures
            r is Some <==> self@.plus(other@).in_range(),
            r matches Some(sum) ==> sum@ == self@.plus(other@),
    {
        proof {
            use_type_invariant(self);
            use_type_invariant(other);
            lemma_sum_wf(self@, other@);
        }
        let units: i128 = self.units + other.units;
        if units > MAX_UNITS || units < -MAX_UNITS {
            return None;
        }
        let places: u32 = if self.places >= other.places {
            self.places
        } else {
            other.places
        };
        Some(Amount { units, places })
    }

    /// The difference, or `None` where it is out of range.
    pub fn checked_minus(&self, other: &Amount) -> (r: Option<Amount>)
        ensures
            r is Some <==> self@.minus(other@).in_range(),
            r matches Some(difference) ==> difference@ == self@.minus(other@),
    {
        proof {
            use_type_invariant(self);
            use_type_invariant(other);
            lemma_sum_wf(self@, other@);
        }
        let units: i128 = self.units - other.units;
        if units > MAX_UNITS || units < -MAX_UNITS {
            return None;
        }
        let places: u32 = if self.places >= other.places {
            self.places
        } else {
            other.places
        };
        Some(Amount { units, places })
    }

    /// Whether this amount is less than `other`.
    pub fn less_than(&self, other: &Amount) -> (r: bool)
        ensures
            r == (self@.units < other@.units),
    {
        self.units < other.units
    }

    /// The amount as text, with as many fractional digits as it is shown
    /// with, or `None` where its mantissa has more than 96 bits.
    pub fn to_text(&self) -> (r: Option<String>)
        ensures
            r is Some <==> self@.has_text(),
            r matches Some(s) ==> s@ == self@.text(),
    {
        proof {
            use_type_invariant(self);
        }
        display_text(self.mantissa(), self.places)
    }
}

/// Turns a decimal, given by mantissa and scale, into an amount: the decimal
/// must be positive and have at most four fractional digits.
pub fn amount_from_decimal(mantissa: i128, scale: u32) -> (r: Result<Amount, ParseError>)
    requires
        -MAX_MANTISSA <= mantissa <= MAX_MANTISSA,
    ensures
        match r {
            Ok(a) => decimal_amount(mantissa as int, scale as nat) == Ok::<Money, ParseError>(a@),
            Err(e) => decimal_amount(mantissa as int, scale as nat) == Err::<Money, ParseError>(e),
        },
{
    if mantissa <= 0 {
        return Err(ParseError::NonPositive);
    }
    if scale > PLACES {
        return Err(ParseError::TooPrecise);
    }
    let weight: i128 = step(scale);
    proof {
        lemma_scaled(mantissa as int, scale as nat);
    }
    Ok(Amount { units: mantissa * weight, places: scale })
}

/// Reads an amount from text. Surrounding white space is ignored; the rest
/// must be a numeral for a positive decimal with at most four fractional
/// digits.
pub fn parse_amount(amount: &str) -> (r: Result<Amount, ParseError>)
    ensures
        match r {
            Ok(a) => parsed_amount(amount@) == Ok::<Money, ParseError>(a@),
            Err(e) => parsed_amount(amount@) == Err::<Money, ParseError>(e),
        },
{
    let t = trim(amount);
    if t.is_empty() {
        return Err(ParseError::Empty);
    }
    if !is_numeral_text(t) {
        return Err(ParseError::Malformed);
    }
    match decimal_from_str(t) {
        None => Err(ParseError::Malformed),
        Some(parts) => amount_from_decimal(parts.0, parts.1),
    }
}

} // verus!
