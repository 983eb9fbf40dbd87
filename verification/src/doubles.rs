//! Binary numbers of double precision: 53 binary digits and a power of two.
//!
//! A number is held as the count of the smallest positive one that is in it. The
//! smallest positive number is two to the power of -1074, and every number is a
//! multiple of it.

use vstd::arithmetic::div_mod::{
    lemma_div_denominator, lemma_fundamental_div_mod, lemma_fundamental_div_mod_converse,
};
use vstd::prelude::*;

use crate::naturals::{
    decimal_digits, double, from_chars, halve, is_nought, lemma_ten_outgrows_eight,
    lemma_ten_to_adds, lemma_ten_to_grows, lemma_two_to_adds, lemma_two_to_grows, lower, minus,
    multiply, natural, plus, raise, small, ten_to, two_to,
};
use crate::text::{all_digits, digits_value};

verus! {

/// How many binary digits a number has at most.
pub const PRECISION: u32 = 53;

/// How many halvings of one give the smallest positive number.
pub const SMALLEST: u32 = 1074;

/// How many doublings of the smallest positive number give the first that is
/// infinite.
pub const INFINITE: u32 = 2098;

/// The whole number nearest to a fraction; of two that are as near, the even
/// one.
pub open spec fn nearest(numerator: nat, denominator: nat) -> nat {
    let below = numerator / denominator;
    let twice = 2 * (numerator % denominator);
    if twice > denominator || (twice == denominator && below % 2 == 1) {
        below + 1
    } else {
        below
    }
}

/// A fraction rounded to the precision of doubles: below two to the power of 53
/// to a whole number, and above that as its half is rounded.
pub open spec fn rounded(numerator: nat, denominator: nat) -> nat
    decreases numerator / denominator,
{
    if denominator == 0 || numerator < two_to(PRECISION as nat) * denominator {
        nearest(numerator, denominator)
    } else {
        proof {
            lemma_half_is_less(numerator, denominator);
        }
        2 * rounded(numerator, 2 * denominator)
    }
}

/// The same, unless it is infinite.
pub open spec fn finite(numerator: nat, denominator: nat) -> Option<nat> {
    if rounded(numerator, denominator) < two_to(INFINITE as nat) {
        Some(rounded(numerator, denominator))
    } else {
        None
    }
}

pub open spec fn signed(negative: bool, size: Option<nat>) -> Option<int> {
    match size {
        Some(size) => Some(
            if negative {
                -(size as int)
            } else {
                size as int
            },
        ),
        None => None,
    }
}

/// The double nearest to a fraction, unless it is infinite.
pub open spec fn double_of(numerator: int, denominator: nat) -> Option<int> {
    if numerator < 0 {
        signed(true, finite((-numerator) as nat, denominator))
    } else {
        signed(false, finite(numerator as nat, denominator))
    }
}

/// So many units of one, rounded to whole ones.
pub open spec fn in_units(number: nat, units: nat) -> nat {
    nearest(number * units, two_to(SMALLEST as nat))
}

/// A finite double.
#[derive(Debug)]
pub struct Double {
    pub negative: bool,
    /// The decimal digits of its size, the ones first.
    pub size: Vec<u8>,
}

impl Double {
    /// How often the smallest positive number is in it.
    pub open spec fn view(&self) -> int {
        if self.negative {
            -(natural(self.size@) as int)
        } else {
            natural(self.size@) as int
        }
    }

    pub open spec fn well_formed(&self) -> bool {
        decimal_digits(self.size@)
    }
}

/// A double with the given value, or none.
pub open spec fn is_double(double: Option<Double>, value: Option<int>) -> bool {
    match double {
        Some(double) => double.well_formed() && value == Some(double@),
        None => value is None,
    }
}

pub proof fn lemma_half_is_less(numerator: nat, denominator: nat)
    requires
        denominator > 0,
        numerator >= two_to(PRECISION as nat) * denominator,
    ensures
        numerator / (2 * denominator) < numerator / denominator,
{
    lemma_two_to_grows(0, PRECISION as nat);
    let power = two_to(PRECISION as nat);
    assert(power * denominator >= denominator) by (nonlinear_arith)
        requires
            power >= 1,
    ;
    let quotient = numerator / denominator;
    assert(quotient >= 1) by (nonlinear_arith)
        requires
            numerator >= denominator,
            denominator > 0,
            quotient == numerator / denominator,
    ;
    lemma_div_denominator(numerator as int, denominator as int, 2);
    assert(denominator * 2 == 2 * denominator);
}

/// Halving a quotient doubles what it was divided by; something is left of the
/// whole where something was left before or is left now.
proof fn lemma_halved(whole: nat, by: nat)
    requires
        by > 0,
    ensures
        whole / (2 * by) == (whole / by) / 2,
        (whole % (2 * by) != 0) == ((whole / by) % 2 == 1 || whole % by != 0),
{
    lemma_div_denominator(whole as int, by as int, 2);
    assert(by * 2 == 2 * by);
    lemma_fundamental_div_mod(whole as int, by as int);
    lemma_fundamental_div_mod(whole as int, (2 * by) as int);
    let quotient = (whole / by) as int;
    let rest = (whole % by) as int;
    let half = quotient / 2;
    let bit = quotient % 2;
    let twice = (whole % (2 * by)) as int;
    let d = by as int;
    assert(twice == d * bit + rest) by (nonlinear_arith)
        requires
            whole == d * quotient + rest,
            whole == (2 * d) * half + twice,
            quotient == 2 * half + bit,
    ;
    assert(d * bit == if bit == 1 {
        d
    } else {
        0
    }) by (nonlinear_arith)
        requires
            bit == 0 || bit == 1,
    ;
}

/// The nearest whole number is known from the quotient of twice the fraction.
proof fn lemma_nearest(numerator: nat, denominator: nat)
    requires
        denominator > 0,
    ensures
        ({
            let twice = (2 * numerator) / denominator;
            let inexact = (2 * numerator) % denominator != 0;
            nearest(numerator, denominator) == twice / 2 + if twice % 2 == 1 && (inexact || (twice
                / 2) % 2 == 1) {
                1nat
            } else {
                0
            }
        }),
{
    let d = denominator as int;
    let below = (numerator / denominator) as int;
    let rest = (numerator % denominator) as int;
    lemma_fundamental_div_mod(numerator as int, d);
    let bit: int = if 2 * rest >= d {
        1
    } else {
        0
    };
    let twice = 2 * below + bit;
    let left = 2 * rest - d * bit;
    assert(2 * numerator == d * twice + left) by (nonlinear_arith)
        requires
            numerator == d * below + rest,
            twice == 2 * below + bit,
            left == 2 * rest - d * bit,
    ;
    assert(d * bit == if bit == 1 {
        d
    } else {
        0
    }) by (nonlinear_arith)
        requires
            bit == 0 || bit == 1,
    ;
    assert(2 * numerator == twice * d + left) by (nonlinear_arith)
        requires
            2 * numerator == d * twice + left,
    ;
    lemma_fundamental_div_mod_converse((2 * numerator) as int, d, twice, left);
}

/// Rounding does not go below a power of two that is reached.
pub proof fn lemma_rounded_reaches(numerator: nat, denominator: nat, power: nat)
    requires
        denominator > 0,
        numerator >= two_to(power) * denominator,
    ensures
        rounded(numerator, denominator) >= two_to(power),
    decreases numerator / denominator,
{
    let reached = two_to(power);
    if numerator < two_to(PRECISION as nat) * denominator {
        let quotient = numerator / denominator;
        assert(quotient >= reached) by {
            lemma_fundamental_div_mod(numerator as int, denominator as int);
            let rest = numerator % denominator;
            assert(quotient >= reached) by (nonlinear_arith)
                requires
                    numerator >= reached * denominator,
                    numerator == denominator * quotient + rest,
                    rest < denominator,
            ;
        }
    } else {
        lemma_half_is_less(numerator, denominator);
        if power == 0 {
            lemma_two_to_grows(1, PRECISION as nat);
            let most = two_to(PRECISION as nat);
            assert(two_to(1) == 2) by {
                reveal_with_fuel(two_to, 2);
            }
            assert(numerator >= 1 * (2 * denominator)) by (nonlinear_arith)
                requires
                    numerator >= most * denominator,
                    most >= 2,
            ;
            lemma_rounded_reaches(numerator, 2 * denominator, 0);
        } else {
            let fewer = two_to((power - 1) as nat);
            assert(numerator >= fewer * (2 * denominator)) by (nonlinear_arith)
                requires
                    numerator >= (2 * fewer) * denominator,
            ;
            lemma_rounded_reaches(numerator, 2 * denominator, (power - 1) as nat);
        }
    }
}

/// Twice a fraction is below twice a bound exactly where the fraction is below it.
proof fn lemma_twice_below(numerator: nat, denominator: nat, bound: nat)
    requires
        denominator > 0,
    ensures
        (2 * numerator) / denominator < 2 * bound <==> numerator < bound * denominator,
{
    let quotient = (2 * numerator) / denominator;
    let rest = (2 * numerator) % denominator;
    lemma_fundamental_div_mod((2 * numerator) as int, denominator as int);
    if quotient < 2 * bound {
        assert(numerator < bound * denominator) by (nonlinear_arith)
            requires
                2 * numerator == denominator * quotient + rest,
                rest < denominator,
                quotient <= 2 * bound - 1,
        ;
    } else {
        assert(numerator >= bound * denominator) by (nonlinear_arith)
            requires
                2 * numerator == denominator * quotient + rest,
                quotient >= 2 * bound,
        ;
    }
}

/// Two to a small power.
fn power_of_two(times: u32) -> (power: u64)
    requires
        times <= PRECISION,
    ensures
        power == two_to(times as nat),
{
    let mut power: u64 = 1;
    let mut done: u32 = 0;
    assert(two_to(PRECISION as nat) == 0x20_0000_0000_0000) by {
        reveal_with_fuel(two_to, 54);
    }
    while done < times
        invariant
            done <= times <= PRECISION,
            power == two_to(done as nat),
            two_to(PRECISION as nat) == 0x20_0000_0000_0000,
        decreases times - done,
    {
        proof {
            lemma_two_to_grows(done as nat, PRECISION as nat);
        }
        power = power * 2;
        done += 1;
    }
    power
}

/// Rounds a fraction, given the whole part of its double and whether anything
/// was left.
fn round(
    twice: Vec<u8>,
    inexact: bool,
    Ghost(numerator): Ghost<nat>,
    Ghost(denominator): Ghost<nat>,
) -> (size: Option<Vec<u8>>)
    requires
        denominator > 0,
        decimal_digits(twice@),
        natural(twice@) == (2 * numerator) / denominator,
        inexact == ((2 * numerator) % denominator != 0),
    ensures
        match size {
            Some(size) => decimal_digits(size@) && finite(numerator, denominator) == Some(
                natural(size@),
            ),
            None => finite(numerator, denominator) is None,
        },
{
    let mut rest = twice;
    let mut left = inexact;
    let mut halvings: u32 = 0;
    let ghost mut by = denominator;
    let most: u128 = 0x3f_ffff_ffff_ffff;
    proof {
        assert(two_to(PRECISION as nat) == 0x20_0000_0000_0000) by {
            reveal_with_fuel(two_to, 54);
        }
        let all = rounded(numerator, denominator);
        assert(1 * all == all);
    }
    while small(&rest, most).is_none()
        invariant
            most == 0x3f_ffff_ffff_ffff,
            two_to(PRECISION as nat) == 0x20_0000_0000_0000,
            halvings <= INFINITE,
            by > 0,
            decimal_digits(rest@),
            natural(rest@) == (2 * numerator) / by,
            left == ((2 * numerator) % by != 0),
            rounded(numerator, denominator) == two_to(halvings as nat) * rounded(numerator, by),
        decreases INFINITE - halvings,
    {
        proof {
            lemma_twice_below(numerator, by, two_to(PRECISION as nat));
        }
        if halvings == INFINITE {
            proof {
                lemma_rounded_reaches(numerator, by, PRECISION as nat);
                let power = two_to(INFINITE as nat);
                let here = rounded(numerator, by);
                assert(power * here >= power) by (nonlinear_arith)
                    requires
                        here >= 1,
                ;
            }
            return None;
        }
        proof {
            lemma_halved(2 * numerator, by);
            let power = two_to(halvings as nat);
            let half = rounded(numerator, 2 * by);
            assert(power * (2 * half) == (2 * power) * half) by (nonlinear_arith);
            by = 2 * by;
        }
        let odd = halve(&mut rest);
        left = left || odd;
        halvings += 1;
    }
    let value: u128 = match small(&rest, most) {
        Some(value) => value,
        None => {
            return None;
        },
    };
    proof {
        lemma_twice_below(numerator, by, two_to(PRECISION as nat));
        lemma_nearest(numerator, by);
    }
    let odd = halve(&mut rest);
    let mut mantissa: u128 = value / 2;
    if odd && (left || mantissa % 2 == 1) {
        let mut one: Vec<u8> = Vec::new();
        one.push(1);
        assert(natural(one@) == 1) by {
            assert(one@.drop_first() =~= Seq::empty());
            assert(natural(one@.drop_first()) == 0);
        }
        rest = plus(&rest, &one);
        mantissa += 1;
    }
    assert(natural(rest@) == nearest(numerator, by));
    assert(mantissa == natural(rest@));
    if halvings + PRECISION >= INFINITE {
        let limit = power_of_two(INFINITE - halvings);
        proof {
            lemma_two_to_adds(halvings as nat, (INFINITE - halvings) as nat);
            lemma_two_to_grows(0, halvings as nat);
            let power = two_to(halvings as nat);
            let bound = limit as nat;
            let size = mantissa as nat;
            assert((power * size < power * bound) == (size < bound)) by (nonlinear_arith)
                requires
                    power > 0,
            ;
        }
        if mantissa >= limit as u128 {
            return None;
        }
    } else {
        proof {
            lemma_two_to_adds(halvings as nat, PRECISION as nat);
            lemma_two_to_grows((halvings + PRECISION + 1) as nat, INFINITE as nat);
            let power = two_to(halvings as nat);
            let size = mantissa as nat;
            assert(power * size <= power * 0x20_0000_0000_0000) by (nonlinear_arith)
                requires
                    size <= 0x20_0000_0000_0000,
            ;
        }
    }
    Some(double(rest, halvings))
}

proof fn lemma_finite_nought(denominator: nat)
    requires
        denominator > 0,
    ensures
        finite(0, denominator) == Some(0nat),
{
    let power = two_to(PRECISION as nat);
    lemma_two_to_grows(0, PRECISION as nat);
    lemma_two_to_grows(0, INFINITE as nat);
    assert(0 < power * denominator) by (nonlinear_arith)
        requires
            power > 0,
            denominator > 0,
    ;
    assert(0nat / denominator == 0 && 0nat % denominator == 0) by (nonlinear_arith)
        requires
            denominator > 0,
    ;
}

/// The finite double of a written number: digits times a power of ten.
pub open spec fn written(digits: nat, exponent: int) -> Option<nat> {
    let size = digits * two_to(SMALLEST as nat);
    if exponent >= 0 {
        finite(size * ten_to(exponent as nat), 1)
    } else {
        finite(size, ten_to((-exponent) as nat))
    }
}

/// A number is infinite that is written with so large an exponent.
proof fn lemma_written_far_up(digits: nat, exponent: int)
    requires
        exponent >= 1000,
        digits > 0,
    ensures
        written(digits, exponent) is None,
{
    lemma_ten_outgrows_eight(1000);
    lemma_ten_to_grows(1000, exponent as nat);
    lemma_two_to_grows(INFINITE as nat, 3000);
    lemma_two_to_grows(0, SMALLEST as nat);
    let unit = two_to(SMALLEST as nat);
    let power = ten_to(exponent as nat);
    let size = (digits * unit) * power;
    assert(size >= power) by (nonlinear_arith)
        requires
            size == (digits * unit) * power,
            digits >= 1,
            unit >= 1,
    ;
    assert(two_to(INFINITE as nat) * 1 == two_to(INFINITE as nat));
    lemma_rounded_reaches(size, 1, INFINITE as nat);
}

/// A number is nought that is written with so small an exponent.
proof fn lemma_written_far_down(digits: nat, count: nat, exponent: int)
    requires
        digits < ten_to(count),
        exponent <= -(count + 400),
    ensures
        written(digits, exponent) == Some(0nat),
{
    let unit = two_to(SMALLEST as nat);
    let size = digits * unit;
    let below = ten_to((-exponent) as nat);
    lemma_ten_outgrows_eight(400);
    lemma_two_to_grows(1075, 1200);
    lemma_two_to_grows(0, SMALLEST as nat);
    lemma_two_to_grows(0, PRECISION as nat);
    lemma_two_to_grows(0, INFINITE as nat);
    lemma_ten_to_adds(count, 400);
    lemma_ten_to_grows(count + 400, (-exponent) as nat);
    let many = ten_to(count);
    let more = ten_to(400);
    assert(2 * unit <= more);
    assert(2 * size < many * more) by (nonlinear_arith)
        requires
            size == digits * unit,
            digits < many,
            2 * unit <= more,
            unit >= 1,
    ;
    let power = two_to(PRECISION as nat);
    assert(size < power * below) by (nonlinear_arith)
        requires
            2 * size < below,
            power >= 1,
    ;
    assert(size / below == 0 && size % below == size) by (nonlinear_arith)
        requires
            2 * size < below,
    ;
}

/// Far exponents need not be told apart.
pub proof fn lemma_far_exponents_agree(digits: nat, count: nat, a: int, b: int)
    requires
        digits < ten_to(count),
        (a >= 1000 && b >= 1000) || (a <= -(count + 400) && b <= -(count + 400)),
    ensures
        written(digits, a) == written(digits, b),
{
    if a < 0 {
        lemma_written_far_down(digits, count, a);
        lemma_written_far_down(digits, count, b);
    } else if digits > 0 {
        lemma_written_far_up(digits, a);
        lemma_written_far_up(digits, b);
    } else {
        let unit = two_to(SMALLEST as nat);
        let first = ten_to(a as nat);
        let second = ten_to(b as nat);
        assert((0 * unit) * first == 0 && (0 * unit) * second == 0) by (nonlinear_arith);
    }
}

/// The double of a written number.
pub fn from_written(negative: bool, digits: &Vec<char>, exponent: i128) -> (number: Option<Double>)
    requires
        all_digits(digits@),
        -0x1000_0000_0000_0000_0000_0000_0000_0000 < exponent,
    ensures
        is_double(number, signed(negative, written(digits_value(digits@), exponent as int))),
{
    let ghost value = digits_value(digits@);
    let ghost unit = two_to(SMALLEST as nat);
    let ghost size = value * unit;
    let given = from_chars(digits);
    if is_nought(&given) {
        proof {
            lemma_ten_to_grows(0, if exponent < 0 {
                (-exponent) as nat
            } else {
                exponent as nat
            });
            lemma_finite_nought(1);
            if exponent < 0 {
                lemma_finite_nought(ten_to((-exponent) as nat));
            }
            let power = ten_to(exponent as nat);
            assert(0 * unit == 0 && (0 * unit) * power == 0) by (nonlinear_arith);
        }
        return Some(Double { negative, size: given });
    }
    let rounded = if exponent >= 1000 {
        proof {
            lemma_written_far_up(value, exponent as int);
        }
        None
    } else if exponent >= 0 {
        let raised = raise(&given, exponent as u32);
        let twice = double(raised, SMALLEST + 1);
        proof {
            let power = ten_to(exponent as nat);
            assert((2 * unit) * (power * value) == 2 * ((value * unit) * power))
                by (nonlinear_arith);
            let whole = 2 * (size * power);
            assert(whole / 1 == whole && whole % 1 == 0);
        }
        round(twice, false, Ghost(size * ten_to(exponent as nat)), Ghost(1))
    } else {
        let all = double(given, SMALLEST + 1);
        let (twice, left) = lower(&all, (-exponent) as u128);
        proof {
            lemma_ten_to_grows(0, (-exponent) as nat);
            assert((2 * unit) * value == 2 * (value * unit)) by (nonlinear_arith);
        }
        round(twice, left, Ghost(size), Ghost(ten_to((-exponent) as nat)))
    };
    match rounded {
        Some(size) => Some(Double { negative, size }),
        None => None,
    }
}

fn round_whole(size: Vec<u8>) -> (rounded: Option<Vec<u8>>)
    requires
        decimal_digits(size@),
    ensures
        match rounded {
            Some(rounded) => decimal_digits(rounded@) && finite(natural(size@), 1) == Some(
                natural(rounded@),
            ),
            None => finite(natural(size@), 1) is None,
        },
{
    let ghost number = natural(size@);
    let twice = double(size, 1);
    proof {
        assert(two_to(1) == 2) by {
            reveal_with_fuel(two_to, 2);
        }
        let whole = 2 * number;
        assert(whole / 1 == whole && whole % 1 == 0);
    }
    round(twice, false, Ghost(number), Ghost(1))
}

fn with_sign(negative: bool, size: Option<Vec<u8>>) -> (number: Option<Double>)
    ensures
        match (size, number) {
            (Some(size), Some(number)) => number.negative == negative && number.size == size,
            (None, None) => true,
            _ => false,
        },
{
    match size {
        Some(size) => Some(Double { negative, size }),
        None => None,
    }
}

impl Double {
    /// Nought.
    pub fn nought() -> (number: Double)
        ensures
            number.well_formed(),
            number@ == 0,
    {
        Double { negative: false, size: Vec::new() }
    }

    /// Less than nought.
    pub fn is_negative(&self) -> (yes: bool)
        requires
            self.well_formed(),
        ensures
            yes == (self@ < 0),
    {
        self.negative && !is_nought(&self.size)
    }

    /// A multiple of the number.
    pub fn times(&self, factor: u32) -> (product: Option<Double>)
        requires
            self.well_formed(),
            0 < factor <= 65536,
        ensures
            is_double(product, double_of(self@ * factor, 1)),
    {
        proof {
            let size = natural(self.size@) as int;
            assert((-size) * factor == -(factor * size)) by (nonlinear_arith);
            assert(size * factor == factor * size) by (nonlinear_arith);
            assert(factor * size >= 0) by (nonlinear_arith)
                requires
                    size >= 0,
                    factor > 0,
            ;
        }
        let product = round_whole(multiply(&self.size, factor));
        proof {
            lemma_finite_nought(1);
        }
        with_sign(self.negative, product)
    }

    /// The thousandth part of the number.
    pub fn thousandth(&self) -> (part: Option<Double>)
        requires
            self.well_formed(),
        ensures
            is_double(part, double_of(self@, 1000)),
    {
        let ghost number = natural(self.size@);
        let all = multiply(&self.size, 2);
        let (twice, left) = lower(&all, 3);
        proof {
            assert(ten_to(3) == 1000) by {
                reveal_with_fuel(ten_to, 4);
            }
            lemma_finite_nought(1000);
        }
        with_sign(self.negative, round(twice, left, Ghost(number), Ghost(1000)))
    }

    /// The sum of two numbers.
    pub fn plus(&self, other: &Double) -> (sum: Option<Double>)
        requires
            self.well_formed(),
            other.well_formed(),
        ensures
            is_double(sum, double_of(self@ + other@, 1)),
    {
        proof {
            lemma_finite_nought(1);
        }
        if self.negative == other.negative {
            return with_sign(self.negative, round_whole(plus(&self.size, &other.size)));
        }
        match minus(&self.size, &other.size) {
            Some(difference) => with_sign(self.negative, round_whole(difference)),
            None => match minus(&other.size, &self.size) {
                Some(difference) => with_sign(other.negative, round_whole(difference)),
                None => None,
            },
        }
    }
}

/// Divides by two, `times` times, and tells whether anything was left.
fn halve_often(digits: Vec<u8>, times: u32) -> (result: (Vec<u8>, bool))
    requires
        decimal_digits(digits@),
    ensures
        decimal_digits(result.0@),
        natural(result.0@) == natural(digits@) / two_to(times as nat),
        result.1 == (natural(digits@) % two_to(times as nat) != 0),
{
    let ghost given = natural(digits@);
    let mut rest = digits;
    let mut left = false;
    let mut done: u32 = 0;
    assert(given / 1 == given && given % 1 == 0);
    while done < times
        invariant
            done <= times,
            decimal_digits(rest@),
            natural(rest@) == given / two_to(done as nat),
            left == (given % two_to(done as nat) != 0),
        decreases times - done,
    {
        proof {
            lemma_two_to_grows(0, done as nat);
            lemma_halved(given, two_to(done as nat));
        }
        let odd = halve(&mut rest);
        left = left || odd;
        done += 1;
    }
    (rest, left)
}

impl Double {
    /// So many thousand millionth parts of one, rounded to whole ones, where they
    /// are no more than `most`.
    pub fn in_billionths(&self, most: u128) -> (parts: Option<u128>)
        requires
            self.well_formed(),
            self@ >= 0,
            most < 0x400_0000_0000_0000_0000_0000_0000_0000,
        ensures
            match parts {
                Some(parts) => parts <= most && parts == in_units(self@ as nat, 1_000_000_000),
                None => in_units(self@ as nat, 1_000_000_000) > most,
            },
    {
        let ghost size = natural(self.size@);
        let ghost whole = size * 1_000_000_000;
        let ghost half = two_to((SMALLEST - 1) as nat);
        let (rest, left) = halve_often(raise(&self.size, 9), SMALLEST - 1);
        proof {
            assert(ten_to(9) == 1_000_000_000) by {
                reveal_with_fuel(ten_to, 10);
            }
            lemma_two_to_grows(0, (SMALLEST - 1) as nat);
            lemma_nearest(whole, 2 * half);
            lemma_doubled_fraction(whole, half);
        }
        let value: u128 = match small(&rest, 2 * most + 1) {
            Some(value) => value,
            None => {
                return None;
            },
        };
        let mut parts: u128 = value / 2;
        if value % 2 == 1 && (left || parts % 2 == 1) {
            parts += 1;
        }
        if parts > most {
            None
        } else {
            Some(parts)
        }
    }
}

proof fn lemma_doubled_fraction(numerator: nat, denominator: nat)
    requires
        denominator > 0,
    ensures
        (2 * numerator) / (2 * denominator) == numerator / denominator,
        (2 * numerator) % (2 * denominator) == 2 * (numerator % denominator),
{
    let quotient = (numerator / denominator) as int;
    let rest = (numerator % denominator) as int;
    lemma_fundamental_div_mod(numerator as int, denominator as int);
    assert(2 * numerator == quotient * (2 * denominator) + 2 * rest) by (nonlinear_arith)
        requires
            numerator == denominator * quotient + rest,
    ;
    lemma_fundamental_div_mod_converse(
        (2 * numerator) as int,
        (2 * denominator) as int,
        quotient,
        2 * rest,
    );
}

/// The whole number nearest to a fraction is no more than a half away from it, and even
/// where it is exactly that.
pub proof fn law_nearest_is_within_a_half(numerator: nat, denominator: nat)
    requires
        denominator > 0,
    ensures
        ({
            let off = 2 * (numerator - denominator * nearest(numerator, denominator));
            &&& -denominator <= off <= denominator
            &&& off == denominator || off == -denominator ==> nearest(numerator, denominator) % 2
                == 0
        }),
{
    let d = denominator as int;
    let below = (numerator / denominator) as int;
    let rest = (numerator % denominator) as int;
    lemma_fundamental_div_mod(numerator as int, d);
    assert(d * (below + 1) == d * below + d) by (nonlinear_arith);
}

/// A rounded number is off by no more than half of the smallest, or by no more than its
/// own size over two to the power of 53.
pub proof fn law_rounding_is_close(numerator: nat, denominator: nat)
    requires
        denominator > 0,
    ensures
        ({
            let off = numerator - denominator * rounded(numerator, denominator);
            let away = if off < 0 {
                -off
            } else {
                off
            };
            2 * away <= denominator || two_to(53) * away <= numerator
        }),
    decreases numerator / denominator,
{
    if numerator < two_to(53) * denominator {
        law_nearest_is_within_a_half(numerator, denominator);
    } else {
        lemma_half_is_less(numerator, denominator);
        law_rounding_is_close(numerator, 2 * denominator);
        let half = rounded(numerator, 2 * denominator);
        assert(denominator * (2 * half) == (2 * denominator) * half) by (nonlinear_arith);
        let off = numerator - (2 * denominator) * half;
        let away = if off < 0 {
            -off
        } else {
            off
        };
        if 2 * away <= 2 * denominator {
            let power = two_to(53);
            assert(power * away <= power * denominator) by (nonlinear_arith)
                requires
                    0 <= away <= denominator,
                    power >= 0,
            ;
        }
    }
}

/// A whole number of the smallest that has few enough binary digits is kept as it is.
pub proof fn law_short_numbers_are_kept(number: nat, denominator: nat)
    requires
        denominator > 0,
        number < two_to(53),
    ensures
        rounded(number * denominator, denominator) == number,
{
    assert(number * denominator < two_to(53) * denominator) by (nonlinear_arith)
        requires
            number < two_to(53),
            denominator > 0,
    ;
    vstd::arithmetic::div_mod::lemma_div_multiples_vanish(number as int, denominator as int);
    vstd::arithmetic::div_mod::lemma_mod_multiples_basic(number as int, denominator as int);
    assert(number * denominator == denominator * number) by (nonlinear_arith);
}

} // verus!
