//! The share of the host's energy that goes to one process.
//!
//! The host's energy over an interval and the share of CPU time that a
//! process had in it both arrive as decimal text. The process is charged
//! `percentage / 100 * energy`, rounded down to whole microjoules. CPU time
//! stands in for a share of the power drawn: the result is an estimate, not a
//! measurement. The arithmetic is exact: no rounding happens but the last.

use vstd::prelude::*;
use vstd::arithmetic::div_mod::{
    lemma_basic_div, lemma_div_denominator, lemma_fundamental_div_mod,
};
use crate::exporter::ProxmoxExporter;
use crate::number::{natural_of, parse_digits, unsigned};
use crate::text::{before_separator, chars_of, lemma_before_separator};

verus! {

/// A decimal number that is not negative: `mantissa / 10^scale`.
#[derive(Clone, Copy, Debug)]
pub struct Decimal {
    /// The digits of the number, the decimal point left out.
    pub mantissa: u64,
    /// How many of the digits stand behind the decimal point.
    pub scale: usize,
}

/// What a [`Decimal`] holds, as mathematical values.
pub ghost struct DecimalModel {
    pub mantissa: nat,
    pub scale: nat,
}

impl View for Decimal {
    type V = DecimalModel;

    open spec fn view(&self) -> DecimalModel {
        DecimalModel { mantissa: self.mantissa as nat, scale: self.scale as nat }
    }
}

/// Ten to the power of `exponent`.
pub open spec fn pow10(exponent: nat) -> nat
    decreases exponent,
{
    if exponent == 0 {
        1
    } else {
        10 * pow10((exponent - 1) as nat)
    }
}

/// The character between the whole part of a number and its fraction.
pub open spec fn decimal_point() -> char {
    '.'
}

/// The digits of `text` behind its decimal point; none where it has no point.
pub open spec fn fraction_of(text: Seq<char>) -> Seq<char> {
    let whole = before_separator(text, decimal_point());
    if whole.len() < text.len() {
        text.skip(whole.len() as int + 1)
    } else {
        Seq::empty()
    }
}

/// The number that `text` spells: a plus sign or none, then digits with at
/// most one decimal point among them, in front, between or behind. There is
/// at least one digit, and the digits without the point spell a number of
/// at most 64 bits.
pub open spec fn decimal_of(text: Seq<char>) -> Option<DecimalModel> {
    let body = unsigned(text);
    let whole = before_separator(body, decimal_point());
    let fraction = fraction_of(body);
    match natural_of(whole + fraction) {
        Some(mantissa) => Some(DecimalModel { mantissa: mantissa as nat, scale: fraction.len() }),
        None => None,
    }
}

/// `percentage / 100 * energy`, rounded down.
pub open spec fn share(percentage: DecimalModel, energy: DecimalModel) -> nat {
    (percentage.mantissa * energy.mantissa) / (100 * pow10(percentage.scale + energy.scale))
}

/// The microjoules to charge a process whose CPU share reads `percentage`
/// when the host's energy reads `energy`: nothing where one of the two is no
/// number, and the largest 64-bit value where the share exceeds it.
pub open spec fn allocation(percentage: Seq<char>, energy: Seq<char>) -> Option<u64> {
    match (decimal_of(percentage), decimal_of(energy)) {
        (Some(p), Some(e)) => Some(
            if share(p, e) <= u64::MAX {
                share(p, e) as u64
            } else {
                u64::MAX
            },
        ),
        _ => None,
    }
}

/// A power of ten is positive, and the powers multiply as the exponents add.
pub proof fn lemma_pow10(a: nat, b: nat)
    ensures
        pow10(a) > 0,
        pow10(a + b) == pow10(a) * pow10(b),
    decreases a,
{
    if a == 0 {
        assert(pow10(0 + b) == 1 * pow10(b));
    } else {
        lemma_pow10((a - 1) as nat, b);
        assert(pow10(a + b) == 10 * pow10((a - 1 + b) as nat));
        assert(10 * (pow10((a - 1) as nat) * pow10(b)) == (10 * pow10((a - 1) as nat)) * pow10(b))
            by (nonlinear_arith);
    }
}

/// The share is `percentage / 100 * energy` rounded down: the one whole
/// number `n` with `n <= percentage / 100 * energy < n + 1`, both sides
/// multiplied by `100 * 10^scales` to stay among whole numbers.
pub proof fn lemma_share_is_floor(percentage: DecimalModel, energy: DecimalModel)
    ensures
        share(percentage, energy) * (100 * pow10(percentage.scale + energy.scale))
            <= percentage.mantissa * energy.mantissa,
        percentage.mantissa * energy.mantissa < (share(percentage, energy) + 1) * (100 * pow10(
            percentage.scale + energy.scale,
        )),
{
    let product = (percentage.mantissa * energy.mantissa) as int;
    let unit = (100 * pow10(percentage.scale + energy.scale)) as int;
    lemma_pow10(percentage.scale + energy.scale, 0);
    lemma_fundamental_div_mod(product, unit);
    assert(0 <= product % unit < unit) by (nonlinear_arith)
        requires
            unit > 0,
    ;
    assert((product / unit) * unit == unit * (product / unit)) by (nonlinear_arith);
    assert((product / unit + 1) * unit == unit * (product / unit) + unit) by (nonlinear_arith);
}

/// A process that used no CPU time is charged nothing, and so is every
/// process while the host draws nothing.
pub proof fn lemma_share_of_nothing(percentage: DecimalModel, energy: DecimalModel)
    requires
        percentage.mantissa == 0 || energy.mantissa == 0,
    ensures
        share(percentage, energy) == 0,
{
    lemma_pow10(percentage.scale + energy.scale, 0);
    assert(percentage.mantissa * energy.mantissa == 0) by (nonlinear_arith)
        requires
            percentage.mantissa == 0 || energy.mantissa == 0,
    ;
    lemma_basic_div(0, (100 * pow10(percentage.scale + energy.scale)) as int);
}

/// Readings of which one spells zero give an allocation of zero.
pub proof fn lemma_allocation_of_nothing(percentage: Seq<char>, energy: Seq<char>)
    requires
        decimal_of(percentage) is Some,
        decimal_of(energy) is Some,
        decimal_of(percentage)->0.mantissa == 0 || decimal_of(energy)->0.mantissa == 0,
    ensures
        allocation(percentage, energy) == Some(0u64),
{
    lemma_share_of_nothing(decimal_of(percentage)->0, decimal_of(energy)->0);
}

/// Whole percentages of whole energies: `percentage * energy / 100`, rounded down.
pub proof fn lemma_share_of_integers(percentage: nat, energy: nat)
    ensures
        share(
            DecimalModel { mantissa: percentage, scale: 0 },
            DecimalModel { mantissa: energy, scale: 0 },
        ) == (percentage * energy) / 100,
{
    assert(pow10(0) == 1);
}

/// The number that `text` spells.
pub fn parse_decimal(text: &str) -> (number: Option<Decimal>)
    ensures
        match number {
            Some(number) => decimal_of(text@) == Some(number@),
            None => decimal_of(text@) is None,
        },
{
    let chars = chars_of(text);
    let start: usize = if chars.len() > 0 && chars[0] == '+' {
        1
    } else {
        0
    };
    let body = vstd::slice::slice_subrange(chars.as_slice(), start, chars.len());
    assert(body@ =~= unsigned(text@));
    let mut point: usize = 0;
    while point < body.len() && body[point] != '.'
        invariant
            point <= body.len(),
            forall|k: int| 0 <= k < point ==> body[k] != decimal_point(),
        decreases body.len() - point,
    {
        point += 1;
    }
    proof {
        lemma_before_separator(body@, decimal_point(), point as int);
    }
    let ghost whole = body@.take(point as int);
    let mut digits: Vec<char> = Vec::new();
    let mut at: usize = 0;
    while at < point
        invariant
            at <= point <= body.len(),
            digits@ == body@.take(at as int),
        decreases point - at,
    {
        digits.push(body[at]);
        at += 1;
    }
    let mut scale: usize = 0;
    if point < body.len() {
        at = point + 1;
        while at < body.len()
            invariant
                point < at <= body.len(),
                scale == at - point - 1,
                digits@ == whole + body@.subrange(point + 1, at as int),
            decreases body.len() - at,
        {
            digits.push(body[at]);
            at += 1;
            scale += 1;
        }
    }
    match parse_digits(digits.as_slice()) {
        Some(mantissa) => Some(Decimal { mantissa, scale }),
        None => None,
    }
}

/// `value` without its last `digits` decimal digits.
fn drop_digits(value: u128, digits: usize) -> (rest: u128)
    ensures
        rest == value as nat / pow10(digits as nat),
{
    let mut rest: u128 = value;
    let mut dropped: usize = 0;
    proof {
        assert(pow10(0) == 1);
    }
    while dropped < digits && rest > 0
        invariant
            dropped <= digits,
            rest == value as nat / pow10(dropped as nat),
        decreases digits - dropped,
    {
        proof {
            lemma_pow10(dropped as nat, 1);
            assert(pow10(1) == 10) by {
                assert(pow10(0) == 1);
            }
            lemma_div_denominator(value as int, pow10(dropped as nat) as int, 10);
        }
        rest = rest / 10;
        dropped += 1;
    }
    proof {
        if dropped < digits {
            let gap = (digits - dropped) as nat;
            lemma_pow10(dropped as nat, gap);
            lemma_pow10(gap, 0);
            lemma_div_denominator(value as int, pow10(dropped as nat) as int, pow10(gap) as int);
            lemma_basic_div(0, pow10(gap) as int);
        }
    }
    rest
}

impl Decimal {
    /// `self / 100 * energy` in whole microjoules, rounded down, where
    /// `self` is a percentage; the largest 64-bit value where that is less.
    pub fn percent_of(&self, energy: &Decimal) -> (microjoules: u64)
        ensures
            microjoules == if share(self@, energy@) <= u64::MAX {
                share(self@, energy@)
            } else {
                u64::MAX as nat
            },
    {
        assert(self.mantissa * energy.mantissa <= u128::MAX) by (nonlinear_arith)
            requires
                self.mantissa <= u64::MAX,
                energy.mantissa <= u64::MAX,
        ;
        let product: u128 = (self.mantissa as u128) * (energy.mantissa as u128);
        let rest = drop_digits(drop_digits(product, self.scale), energy.scale);
        let whole: u128 = rest / 100;
        proof {
            let first = pow10(self.scale as nat) as int;
            let second = pow10(energy.scale as nat) as int;
            lemma_pow10(self.scale as nat, energy.scale as nat);
            lemma_pow10(energy.scale as nat, 0);
            lemma_div_denominator(product as int, first, second);
            lemma_div_denominator(product as int, first * second, 100);
            assert((first * second) * 100 == 100 * (first * second)) by (nonlinear_arith);
        }
        if whole > u64::MAX as u128 {
            u64::MAX
        } else {
            whole as u64
        }
    }
}

impl ProxmoxExporter {
    /// The microjoules to charge a process whose CPU share reads
    /// `percentage` when the host's energy reads `energy`; `None` where one
    /// of the two is no number.
    pub fn allocate(percentage: &str, energy: &str) -> (microjoules: Option<u64>)
        ensures
            microjoules == allocation(percentage@, energy@),
    {
        match parse_decimal(percentage) {
            Some(percentage) => match parse_decimal(energy) {
                Some(energy) => Some(percentage.percent_of(&energy)),
                None => None,
            },
            None => None,
        }
    }
}

} // verus!
