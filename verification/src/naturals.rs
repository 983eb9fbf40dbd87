//! Whole numbers of any size, as lists of decimal digits with the ones first.

use vstd::arithmetic::div_mod::lemma_fundamental_div_mod_converse;
use vstd::prelude::*;

use crate::text::{all_digits, decimal, digits_value, is_digit};

verus! {

/// Ten times ten, and so on, `n` times.
pub open spec fn ten_to(n: nat) -> nat
    decreases n,
{
    if n == 0 {
        1
    } else {
        10 * ten_to((n - 1) as nat)
    }
}

/// Two times two, and so on, `n` times.
pub open spec fn two_to(n: nat) -> nat
    decreases n,
{
    if n == 0 {
        1
    } else {
        2 * two_to((n - 1) as nat)
    }
}

/// The number that digits stand for, the ones first.
pub open spec fn natural(digits: Seq<u8>) -> nat
    decreases digits.len(),
{
    if digits.len() == 0 {
        0
    } else {
        digits[0] as nat + 10 * natural(digits.drop_first())
    }
}

/// Every item is a decimal digit.
pub open spec fn decimal_digits(digits: Seq<u8>) -> bool {
    forall|i: int| 0 <= i < digits.len() ==> #[trigger] digits[i] <= 9
}

pub proof fn lemma_ten_to_grows(a: nat, b: nat)
    requires
        a <= b,
    ensures
        0 < ten_to(a) <= ten_to(b),
    decreases b,
{
    if a < b {
        lemma_ten_to_grows(a, (b - 1) as nat);
    } else if b > 0 {
        lemma_ten_to_grows((a - 1) as nat, (b - 1) as nat);
    }
}

pub proof fn lemma_two_to_grows(a: nat, b: nat)
    requires
        a <= b,
    ensures
        0 < two_to(a) <= two_to(b),
    decreases b,
{
    if a < b {
        lemma_two_to_grows(a, (b - 1) as nat);
    } else if b > 0 {
        lemma_two_to_grows((a - 1) as nat, (b - 1) as nat);
    }
}

pub proof fn lemma_two_to_adds(a: nat, b: nat)
    ensures
        two_to(a + b) == two_to(a) * two_to(b),
    decreases b,
{
    let first = two_to(a);
    if b == 0 {
        assert(first * 1 == first);
    } else {
        lemma_two_to_adds(a, (b - 1) as nat);
        let second = two_to((b - 1) as nat);
        assert(first * (2 * second) == 2 * (first * second)) by (nonlinear_arith);
    }
}

pub proof fn lemma_ten_to_adds(a: nat, b: nat)
    ensures
        ten_to(a + b) == ten_to(a) * ten_to(b),
    decreases b,
{
    let first = ten_to(a);
    if b == 0 {
        assert(first * 1 == first);
    } else {
        lemma_ten_to_adds(a, (b - 1) as nat);
        let second = ten_to((b - 1) as nat);
        assert(first * (10 * second) == 10 * (first * second)) by (nonlinear_arith);
    }
}

/// A thousand is more than eight times eight times eight: powers of ten outgrow
/// those of eight.
pub proof fn lemma_ten_outgrows_eight(n: nat)
    ensures
        ten_to(n) >= two_to(3 * n),
    decreases n,
{
    if n > 0 {
        lemma_ten_outgrows_eight((n - 1) as nat);
        assert(two_to(3 * n) == 2 * two_to((3 * n - 1) as nat));
        assert(two_to((3 * n - 1) as nat) == 2 * two_to((3 * n - 2) as nat));
        assert(two_to((3 * n - 2) as nat) == 2 * two_to((3 * n - 3) as nat));
    }
}

/// Higher digits count by the power of ten below them.
pub proof fn lemma_natural_joins(low: Seq<u8>, high: Seq<u8>)
    ensures
        natural(low + high) == natural(low) + ten_to(low.len()) * natural(high),
    decreases low.len(),
{
    if low.len() == 0 {
        assert(low + high =~= high);
        assert(1 * natural(high) == natural(high));
    } else {
        lemma_natural_joins(low.drop_first(), high);
        assert((low + high).drop_first() =~= low.drop_first() + high);
        let power = ten_to((low.len() - 1) as nat);
        let rest = natural(high);
        assert((10 * power) * rest == 10 * (power * rest)) by (nonlinear_arith);
    }
}

pub proof fn lemma_natural_bound(digits: Seq<u8>)
    requires
        decimal_digits(digits),
    ensures
        natural(digits) < ten_to(digits.len()),
    decreases digits.len(),
{
    if digits.len() > 0 {
        assert(decimal_digits(digits.drop_first())) by {
            assert forall|i: int| 0 <= i < digits.drop_first().len() implies
                #[trigger] digits.drop_first()[i] <= 9 by {
                assert(digits[i + 1] <= 9);
            }
        }
        lemma_natural_bound(digits.drop_first());
        assert(digits[0] <= 9);
    }
}

proof fn lemma_natural_pushes(digits: Seq<u8>, digit: u8)
    ensures
        natural(digits.push(digit)) == natural(digits) + ten_to(digits.len()) * digit,
{
    lemma_natural_joins(digits, seq![digit]);
    assert(digits + seq![digit] =~= digits.push(digit));
    assert(seq![digit].drop_first() =~= Seq::empty());
    assert(natural(seq![digit]) == digit) by {
        assert(natural(seq![digit].drop_first()) == 0);
    }
}

/// Of the digits from `i` on, the first counts as it is and the others tenfold.
proof fn lemma_natural_from(digits: Seq<u8>, i: int)
    requires
        0 <= i < digits.len(),
    ensures
        natural(digits.subrange(i, digits.len() as int)) == digits[i] as nat + 10 * natural(
            digits.subrange(i + 1, digits.len() as int),
        ),
{
    let from = digits.subrange(i, digits.len() as int);
    assert(from.drop_first() =~= digits.subrange(i + 1, digits.len() as int));
}

/// A number is no smaller than what its higher digits alone would stand for.
proof fn lemma_natural_of_fewer(digits: Seq<u8>, i: int)
    requires
        0 <= i <= digits.len(),
    ensures
        natural(digits) >= natural(digits.subrange(i, digits.len() as int)),
    decreases i,
{
    if i == 0 {
        assert(digits.subrange(0, digits.len() as int) =~= digits);
    } else {
        lemma_natural_of_fewer(digits, i - 1);
        lemma_natural_from(digits, i - 1);
    }
}

/// Multiplies by a small number.
pub fn multiply(digits: &Vec<u8>, factor: u32) -> (product: Vec<u8>)
    requires
        decimal_digits(digits@),
        0 < factor <= 65536,
    ensures
        decimal_digits(product@),
        natural(product@) == factor * natural(digits@),
{
    let ghost given = digits@;
    let mut product: Vec<u8> = Vec::new();
    let mut carry: u32 = 0;
    let mut i: usize = 0;
    proof {
        assert(given.subrange(0, given.len() as int) =~= given);
        let all = factor * natural(given);
        assert(ten_to(0) * (carry + all) == all) by (nonlinear_arith)
            requires
                ten_to(0) == 1,
                carry == 0,
        ;
    }
    while i < digits.len()
        invariant
            given == digits@,
            decimal_digits(given),
            i <= given.len(),
            product@.len() == i,
            decimal_digits(product@),
            0 < factor <= 65536,
            carry < factor,
            factor * natural(given) == natural(product@) + ten_to(i as nat) * (carry + factor
                * natural(given.subrange(i as int, given.len() as int))),
        decreases digits.len() - i,
    {
        let current: u32 = digits[i] as u32;
        assert(given[i as int] <= 9);
        assert(current * factor + carry < 10 * factor) by (nonlinear_arith)
            requires
                current <= 9,
                carry < factor,
        ;
        let total: u32 = current * factor + carry;
        let digit: u8 = (total % 10) as u8;
        proof {
            lemma_natural_from(given, i as int);
            lemma_natural_pushes(product@, digit);
            let power = ten_to(i as nat) as int;
            let rest = natural(given.subrange(i + 1, given.len() as int)) as int;
            let now = given[i as int] as int;
            let next = (total / 10) as int;
            assert(power * (carry + factor * (now + 10 * rest)) == power * digit + (10 * power) * (
            next + factor * rest)) by (nonlinear_arith)
                requires
                    now * factor + carry == 10 * next + digit,
            ;
        }
        product.push(digit);
        carry = total / 10;
        i += 1;
    }
    assert(given.subrange(given.len() as int, given.len() as int) =~= Seq::empty());
    assert(factor * natural(given) == natural(product@) + ten_to(product@.len()) * carry) by {
        let none = natural(given.subrange(i as int, given.len() as int));
        assert(factor * none == 0) by (nonlinear_arith)
            requires
                none == 0,
        ;
    }
    while carry > 0
        invariant
            decimal_digits(product@),
            factor * natural(given) == natural(product@) + ten_to(product@.len()) * carry,
        decreases carry,
    {
        let digit: u8 = (carry % 10) as u8;
        proof {
            lemma_natural_pushes(product@, digit);
            let power = ten_to(product@.len()) as int;
            let next = (carry / 10) as int;
            assert(power * carry == power * digit + (10 * power) * next) by (nonlinear_arith)
                requires
                    carry == 10 * next + digit,
            ;
        }
        product.push(digit);
        carry = carry / 10;
    }
    product
}

/// Multiplies by two, `times` times.
pub fn double(digits: Vec<u8>, times: u32) -> (product: Vec<u8>)
    requires
        decimal_digits(digits@),
    ensures
        decimal_digits(product@),
        natural(product@) == two_to(times as nat) * natural(digits@),
{
    let ghost given = natural(digits@);
    let mut product = digits;
    let mut done: u32 = 0;
    assert(two_to(0) * given == given) by {
        assert(1 * given == given);
    }
    while done < times
        invariant
            done <= times,
            decimal_digits(product@),
            natural(product@) == two_to(done as nat) * given,
        decreases times - done,
    {
        let step: u32 = if times - done >= 16 {
            16
        } else {
            1
        };
        let factor: u32 = if step == 16 {
            65536
        } else {
            2
        };
        proof {
            assert(factor == two_to(step as nat)) by {
                reveal_with_fuel(two_to, 17);
            }
            lemma_two_to_adds(done as nat, step as nat);
            let before = two_to(done as nat);
            assert(factor * (before * given) == (before * factor) * given) by (nonlinear_arith);
        }
        product = multiply(&product, factor);
        done += step;
    }
    product
}

/// Divides by two, and tells whether one was left.
pub fn halve(digits: &mut Vec<u8>) -> (odd: bool)
    requires
        decimal_digits(old(digits)@),
    ensures
        decimal_digits(final(digits)@),
        natural(final(digits)@) == natural(old(digits)@) / 2,
        odd == (natural(old(digits)@) % 2 == 1),
{
    let ghost given = digits@;
    let mut odd = false;
    let mut i: usize = digits.len();
    assert(given.subrange(given.len() as int, given.len() as int) =~= Seq::empty());
    while i > 0
        invariant
            i <= given.len(),
            digits@.len() == given.len(),
            decimal_digits(given),
            decimal_digits(digits@),
            forall|k: int| 0 <= k < i ==> #[trigger] digits@[k] == given[k],
            natural(given.subrange(i as int, given.len() as int)) == 2 * natural(
                digits@.subrange(i as int, given.len() as int),
            ) + (if odd {
                1nat
            } else {
                0
            }),
        decreases i,
    {
        i -= 1;
        let ghost before = digits@;
        assert(given[i as int] <= 9);
        let current: u8 = digits[i] + if odd {
            10
        } else {
            0
        };
        digits[i] = current / 2;
        odd = current % 2 == 1;
        proof {
            lemma_natural_from(given, i as int);
            lemma_natural_from(digits@, i as int);
            assert(digits@.subrange(i + 1, given.len() as int) =~= before.subrange(
                i + 1,
                given.len() as int,
            ));
        }
    }
    proof {
        assert(given.subrange(0, given.len() as int) =~= given);
        assert(digits@.subrange(0, given.len() as int) =~= digits@);
    }
    odd
}

fn digit_at(digits: &Vec<u8>, i: usize) -> (digit: u8)
    requires
        decimal_digits(digits@),
    ensures
        digit == at(digits@, i as int),
        digit <= 9,
{
    if i < digits.len() {
        assert(digits@[i as int] <= 9);
        digits[i]
    } else {
        0
    }
}

/// The digit at a place; those that are not written are noughts.
spec fn at(digits: Seq<u8>, i: int) -> u8 {
    if 0 <= i < digits.len() {
        digits[i]
    } else {
        0
    }
}

/// What the digits from a place on stand for.
spec fn from(digits: Seq<u8>, i: int) -> nat {
    if 0 <= i <= digits.len() {
        natural(digits.subrange(i, digits.len() as int))
    } else {
        0
    }
}

proof fn lemma_from(digits: Seq<u8>, i: int)
    requires
        0 <= i,
    ensures
        from(digits, i) == at(digits, i) as nat + 10 * from(digits, i + 1),
        from(digits, 0) == natural(digits),
        i >= digits.len() ==> from(digits, i) == 0,
{
    assert(digits.subrange(0, digits.len() as int) =~= digits);
    assert(digits.subrange(digits.len() as int, digits.len() as int) =~= Seq::empty());
    if i < digits.len() {
        lemma_natural_from(digits, i);
    }
}

/// Adds two numbers.
pub fn plus(left: &Vec<u8>, right: &Vec<u8>) -> (sum: Vec<u8>)
    requires
        decimal_digits(left@),
        decimal_digits(right@),
    ensures
        decimal_digits(sum@),
        natural(sum@) == natural(left@) + natural(right@),
{
    let mut sum: Vec<u8> = Vec::new();
    let mut carry: u8 = 0;
    let mut i: usize = 0;
    proof {
        lemma_from(left@, 0);
        lemma_from(right@, 0);
        let all = from(left@, 0) + from(right@, 0);
        assert(1 * (carry + all) == all);
    }
    while i < left.len() || i < right.len()
        invariant
            decimal_digits(left@),
            decimal_digits(right@),
            decimal_digits(sum@),
            sum@.len() == i,
            i <= left.len() || i <= right.len(),
            carry <= 1,
            natural(left@) + natural(right@) == natural(sum@) + ten_to(i as nat) * (carry + from(
                left@,
                i as int,
            ) + from(right@, i as int)),
        decreases left.len() + right.len() - i,
    {
        let total: u8 = digit_at(left, i) + digit_at(right, i) + carry;
        let digit: u8 = total % 10;
        proof {
            lemma_from(left@, i as int);
            lemma_from(right@, i as int);
            lemma_natural_pushes(sum@, digit);
            let power = ten_to(i as nat) as int;
            let a = from(left@, i + 1) as int;
            let b = from(right@, i + 1) as int;
            let next = (total / 10) as int;
            let here = carry + from(left@, i as int) + from(right@, i as int);
            assert(power * here == power * digit + (10 * power) * (next + a + b))
                by (nonlinear_arith)
                requires
                    here == 10 * next + digit + 10 * a + 10 * b,
            ;
        }
        sum.push(digit);
        carry = total / 10;
        i += 1;
    }
    proof {
        lemma_from(left@, i as int);
        lemma_from(right@, i as int);
        lemma_natural_pushes(sum@, carry);
    }
    if carry > 0 {
        sum.push(carry);
    }
    sum
}

/// Subtracts a number from one that is no smaller; there is nothing to give
/// where it is.
pub fn minus(left: &Vec<u8>, right: &Vec<u8>) -> (difference: Option<Vec<u8>>)
    requires
        decimal_digits(left@),
        decimal_digits(right@),
    ensures
        match difference {
            Some(difference) => {
                &&& decimal_digits(difference@)
                &&& natural(left@) == natural(right@) + natural(difference@)
            },
            None => natural(left@) < natural(right@),
        },
{
    let mut difference: Vec<u8> = Vec::new();
    let mut borrow: u8 = 0;
    let mut i: usize = 0;
    proof {
        lemma_from(left@, 0);
        lemma_from(right@, 0);
        let a = from(left@, 0) as int;
        let b = from(right@, 0) as int;
        assert(1 * (a - b - borrow) == a - b);
    }
    while i < left.len() || i < right.len()
        invariant
            decimal_digits(left@),
            decimal_digits(right@),
            decimal_digits(difference@),
            difference@.len() == i,
            i <= left.len() || i <= right.len(),
            borrow <= 1,
            natural(left@) - natural(right@) == natural(difference@) + ten_to(i as nat) * (from(
                left@,
                i as int,
            ) - from(right@, i as int) - borrow),
        decreases left.len() + right.len() - i,
    {
        let total: u8 = 10 + digit_at(left, i) - digit_at(right, i) - borrow;
        let digit: u8 = total % 10;
        proof {
            lemma_from(left@, i as int);
            lemma_from(right@, i as int);
            lemma_natural_pushes(difference@, digit);
            let power = ten_to(i as nat) as int;
            let a = from(left@, i + 1) as int;
            let b = from(right@, i + 1) as int;
            let next: int = if total < 10 {
                1
            } else {
                0
            };
            let here = from(left@, i as int) - from(right@, i as int) - borrow;
            assert(power * here == power * digit + (10 * power) * (a - b - next))
                by (nonlinear_arith)
                requires
                    here == digit - 10 * next + 10 * a - 10 * b,
            ;
        }
        difference.push(digit);
        borrow = if total < 10 {
            1
        } else {
            0
        };
        i += 1;
    }
    proof {
        lemma_from(left@, i as int);
        lemma_from(right@, i as int);
        lemma_natural_bound(difference@);
        let power = ten_to(i as nat) as int;
        assert(power * (0 - borrow) == if borrow == 0 {
            0
        } else {
            -power
        }) by (nonlinear_arith)
            requires
                borrow == 0 || borrow == 1,
        ;
    }
    if borrow == 0 {
        Some(difference)
    } else {
        None
    }
}

/// The number, where it is no larger than `most`.
pub fn small(digits: &Vec<u8>, most: u128) -> (value: Option<u128>)
    requires
        decimal_digits(digits@),
        most < 0x1000_0000_0000_0000_0000_0000_0000_0000,
    ensures
        match value {
            Some(value) => value == natural(digits@) && value <= most,
            None => natural(digits@) > most,
        },
{
    let mut value: u128 = 0;
    let mut i: usize = digits.len();
    assert(digits@.subrange(digits@.len() as int, digits@.len() as int) =~= Seq::empty());
    while i > 0
        invariant
            i <= digits@.len(),
            decimal_digits(digits@),
            value <= most < 0x1000_0000_0000_0000_0000_0000_0000_0000,
            value == natural(digits@.subrange(i as int, digits@.len() as int)),
        decreases i,
    {
        i -= 1;
        assert(digits@[i as int] <= 9);
        proof {
            lemma_natural_from(digits@, i as int);
        }
        value = value * 10 + digits[i] as u128;
        if value > most {
            proof {
                lemma_natural_of_fewer(digits@, i as int);
            }
            return None;
        }
    }
    assert(digits@.subrange(0, digits@.len() as int) =~= digits@);
    Some(value)
}

pub fn is_nought(digits: &Vec<u8>) -> (yes: bool)
    requires
        decimal_digits(digits@),
    ensures
        yes == (natural(digits@) == 0),
{
    small(digits, 0).is_some()
}

proof fn lemma_noughts(digits: Seq<u8>)
    requires
        forall|i: int| 0 <= i < digits.len() ==> #[trigger] digits[i] == 0,
    ensures
        natural(digits) == 0,
    decreases digits.len(),
{
    if digits.len() > 0 {
        assert forall|i: int| 0 <= i < digits.drop_first().len() implies
            #[trigger] digits.drop_first()[i] == 0 by {
            assert(digits[i + 1] == 0);
        }
        lemma_noughts(digits.drop_first());
        assert(digits[0] == 0);
    }
}

/// Multiplies by ten, `times` times.
pub fn raise(digits: &Vec<u8>, times: u32) -> (product: Vec<u8>)
    requires
        decimal_digits(digits@),
    ensures
        decimal_digits(product@),
        natural(product@) == ten_to(times as nat) * natural(digits@),
{
    let mut product: Vec<u8> = Vec::new();
    let mut done: u32 = 0;
    while done < times
        invariant
            done <= times,
            product@.len() == done,
            forall|i: int| 0 <= i < done ==> #[trigger] product@[i] == 0,
        decreases times - done,
    {
        product.push(0);
        done += 1;
    }
    let ghost low = product@;
    let mut i: usize = 0;
    assert(low + digits@.subrange(0, 0) =~= low);
    while i < digits.len()
        invariant
            i <= digits@.len(),
            product@ == low + digits@.subrange(0, i as int),
        decreases digits.len() - i,
    {
        product.push(digits[i]);
        assert(product@ =~= low + digits@.subrange(0, i + 1));
        i += 1;
    }
    proof {
        assert(product@ =~= low + digits@);
        lemma_noughts(low);
        lemma_natural_joins(low, digits@);
        assert forall|k: int| 0 <= k < product@.len() implies #[trigger] product@[k] <= 9 by {
            if k < low.len() {
                assert(low[k] == 0);
            } else {
                assert(digits@[k - low.len()] <= 9);
            }
        }
    }
    product
}

/// Divides by ten, `times` times, and tells whether anything was left.
pub fn lower(digits: &Vec<u8>, times: u128) -> (result: (Vec<u8>, bool))
    requires
        decimal_digits(digits@),
    ensures
        decimal_digits(result.0@),
        natural(result.0@) == natural(digits@) / ten_to(times as nat),
        result.1 == (natural(digits@) % ten_to(times as nat) != 0),
{
    let dropped: usize = if times >= digits.len() as u128 {
        digits.len()
    } else {
        times as usize
    };
    let mut low: Vec<u8> = Vec::new();
    let mut high: Vec<u8> = Vec::new();
    let mut i: usize = 0;
    while i < digits.len()
        invariant
            i <= digits@.len(),
            dropped <= digits@.len(),
            decimal_digits(digits@),
            i <= dropped ==> low@ == digits@.subrange(0, i as int) && high@.len() == 0,
            i > dropped ==> low@ == digits@.subrange(0, dropped as int) && high@
                == digits@.subrange(dropped as int, i as int),
        decreases digits.len() - i,
    {
        if i < dropped {
            low.push(digits[i]);
            assert(low@ =~= digits@.subrange(0, i + 1));
        } else {
            high.push(digits[i]);
            assert(high@ =~= digits@.subrange(dropped as int, i + 1));
        }
        i += 1;
    }
    proof {
        assert(high@ =~= digits@.subrange(dropped as int, digits@.len() as int));
        assert(low@ =~= digits@.subrange(0, dropped as int));
        assert(low@ + high@ =~= digits@);
        lemma_natural_joins(low@, high@);
        lemma_natural_bound(low@);
        lemma_ten_to_grows(dropped as nat, times as nat);
        let power = ten_to(times as nat) as int;
        let value = natural(digits@) as int;
        let rest = natural(low@) as int;
        let quotient = natural(high@) as int;
        if times as nat == dropped {
            assert(value == quotient * power + rest) by (nonlinear_arith)
                requires
                    value == rest + power * quotient,
            ;
        } else {
            assert(ten_to(dropped as nat) * quotient == 0) by (nonlinear_arith)
                requires
                    quotient == 0,
            ;
            assert(value == quotient * power + rest) by (nonlinear_arith)
                requires
                    value == rest,
                    quotient == 0,
            ;
        }
        lemma_fundamental_div_mod_converse(value, power, quotient, rest);
    }
    let rest = !is_nought(&low);
    (high, rest)
}

/// The digits of a written number, the ones first.
pub fn from_chars(chars: &Vec<char>) -> (digits: Vec<u8>)
    requires
        all_digits(chars@),
    ensures
        decimal_digits(digits@),
        natural(digits@) == digits_value(chars@),
{
    let mut digits: Vec<u8> = Vec::new();
    let mut i: usize = chars.len();
    proof {
        assert(chars@.subrange(0, chars@.len() as int) =~= chars@);
        let all = digits_value(chars@);
        assert(ten_to(0) * all == all) by (nonlinear_arith)
            requires
                ten_to(0) == 1,
        ;
    }
    while i > 0
        invariant
            i <= chars@.len(),
            all_digits(chars@),
            decimal_digits(digits@),
            digits@.len() == chars@.len() - i,
            digits_value(chars@) == natural(digits@) + ten_to(digits@.len()) * digits_value(
                chars@.subrange(0, i as int),
            ),
        decreases i,
    {
        i -= 1;
        assert(is_digit(chars@[i as int]));
        let digit: u8 = (chars[i] as u32 - '0' as u32) as u8;
        proof {
            let now = chars@.subrange(0, i + 1);
            assert(now.drop_last() =~= chars@.subrange(0, i as int));
            lemma_natural_pushes(digits@, digit);
            let power = ten_to(digits@.len()) as int;
            let before = digits_value(chars@.subrange(0, i as int)) as int;
            let here = digits_value(now) as int;
            assert(power * here == power * digit + (10 * power) * before) by (nonlinear_arith)
                requires
                    here == 10 * before + digit,
            ;
        }
        digits.push(digit);
    }
    proof {
        assert(chars@.subrange(0, 0) =~= Seq::empty());
        let power = ten_to(digits@.len());
        assert(power * 0 == 0) by (nonlinear_arith);
    }
    digits
}

/// Digits as they are written: at least one, and no nought before the others.
pub open spec fn written_out(digits: Seq<u8>) -> bool {
    &&& decimal_digits(digits)
    &&& digits.len() > 0
    &&& digits.len() > 1 ==> digits.last() > 0
}

/// The number that comes next.
pub fn successor(digits: &Vec<u8>) -> (next: Vec<u8>)
    requires
        written_out(digits@),
    ensures
        written_out(next@),
        natural(next@) == natural(digits@) + 1,
{
    let ghost given = digits@;
    let mut next: Vec<u8> = Vec::new();
    let mut carry: u8 = 1;
    let mut i: usize = 0;
    proof {
        assert(given.subrange(0, given.len() as int) =~= given);
        let all = natural(given);
        assert(1 * (carry + all) == all + 1);
    }
    while i < digits.len()
        invariant
            given == digits@,
            decimal_digits(given),
            i <= given.len(),
            next@.len() == i,
            decimal_digits(next@),
            carry <= 1,
            i > 0 && carry == 0 ==> next@[i - 1] >= given[i - 1],
            i == 1 && carry == 0 ==> next@[0] > 0,
            natural(given) + 1 == natural(next@) + ten_to(i as nat) * (carry + natural(
                given.subrange(i as int, given.len() as int),
            )),
        decreases digits.len() - i,
    {
        assert(given[i as int] <= 9);
        let total: u8 = digits[i] + carry;
        let digit: u8 = total % 10;
        proof {
            lemma_natural_from(given, i as int);
            lemma_natural_pushes(next@, digit);
            let power = ten_to(i as nat) as int;
            let rest = natural(given.subrange(i + 1, given.len() as int)) as int;
            let more = (total / 10) as int;
            let here = carry + given[i as int] + 10 * rest;
            assert(power * here == power * digit + (10 * power) * (more + rest))
                by (nonlinear_arith)
                requires
                    here == 10 * more + digit + 10 * rest,
            ;
        }
        next.push(digit);
        carry = total / 10;
        i += 1;
    }
    proof {
        assert(given.subrange(i as int, given.len() as int) =~= Seq::empty());
        lemma_natural_pushes(next@, carry);
    }
    if carry > 0 {
        next.push(carry);
    }
    next
}

/// The number as it is written.
pub fn shown(digits: &Vec<u8>) -> (text: String)
    requires
        written_out(digits@),
    ensures
        text@ == decimal(natural(digits@)),
{
    let mut text = String::new();
    let mut i: usize = digits.len();
    assert(digits@.subrange(digits@.len() as int, digits@.len() as int) =~= Seq::empty());
    while i > 0
        invariant
            i <= digits@.len(),
            written_out(digits@),
            i == digits@.len() ==> text@.len() == 0 && natural(
                digits@.subrange(i as int, digits@.len() as int),
            ) == 0,
            i < digits@.len() ==> text@ == decimal(
                natural(digits@.subrange(i as int, digits@.len() as int)),
            ),
            i < digits@.len() && digits@.len() > 1 ==> natural(
                digits@.subrange(i as int, digits@.len() as int),
            ) > 0,
        decreases i,
    {
        i -= 1;
        assert(digits@[i as int] <= 9);
        let digit: u8 = digits[i] + 48;
        proof {
            lemma_natural_from(digits@, i as int);
        }
        text.push(digit as char);
        assert(text@ =~= decimal(natural(digits@.subrange(i as int, digits@.len() as int))));
    }
    assert(digits@.subrange(0, digits@.len() as int) =~= digits@);
    text
}

} // verus!
