//! Decimal numbers, with or without a sign, a point and an exponent.

use vstd::prelude::*;

use crate::doubles::{
    from_written, is_double, lemma_far_exponents_agree, signed, written, Double,
};
use crate::naturals::ten_to;
use crate::text::{
    all_digits, cut, digits_value, is_digit, lemma_digits_value_grows, split_once, to_chars,
};

verus! {

/// Exponents beyond this are not told apart.
pub const FAR: u128 = 1_000_000_000_000_000_000_000_000_000_000;

/// A decimal number: its digits, taken as a whole number, times a power of ten.
pub ghost struct DecimalView {
    pub negative: bool,
    pub digits: Seq<char>,
    pub exponent: int,
}

/// Whether a minus sign stands first, and the text behind a sign.
pub open spec fn parted_sign(text: Seq<char>) -> (bool, Seq<char>) {
    if text.len() > 0 && (text[0] == '+' || text[0] == '-') {
        (text[0] == '-', text.subrange(1, text.len() as int))
    } else {
        (false, text)
    }
}

pub open spec fn exponent_of(text: Seq<char>) -> Option<int> {
    let (negative, digits) = parted_sign(text);
    if digits.len() > 0 && all_digits(digits) {
        Some(
            if negative {
                -(digits_value(digits) as int)
            } else {
                digits_value(digits) as int
            },
        )
    } else {
        None
    }
}

/// The text before the mark of an exponent, and the exponent behind it.
pub open spec fn parted_exponent(text: Seq<char>) -> (Seq<char>, Option<int>) {
    match cut(text, 'e') {
        Some((mantissa, exponent)) => (mantissa, exponent_of(exponent)),
        None => match cut(text, 'E') {
            Some((mantissa, exponent)) => (mantissa, exponent_of(exponent)),
            None => (text, Some(0)),
        },
    }
}

/// The digits before and behind the point.
pub open spec fn parted_point(text: Seq<char>) -> (Seq<char>, Seq<char>) {
    match cut(text, '.') {
        Some(parts) => parts,
        None => (text, Seq::empty()),
    }
}

/// The number that a text such as `12`, `-1.5`, `.5` or `2e-3` stands for.
pub open spec fn decimal_of(text: Seq<char>) -> Option<DecimalView> {
    let (negative, unsigned) = parted_sign(text);
    let (mantissa, exponent) = parted_exponent(unsigned);
    let (whole, fraction) = parted_point(mantissa);
    let digits = whole + fraction;
    match exponent {
        Some(exponent) => if digits.len() > 0 && all_digits(digits) {
            Some(DecimalView { negative, digits, exponent: exponent - fraction.len() })
        } else {
            None
        },
        None => None,
    }
}

/// The double nearest to the number that a text stands for, unless it is
/// infinite.
pub open spec fn text_double(text: Seq<char>) -> Option<int> {
    match decimal_of(text) {
        Some(number) => signed(
            number.negative,
            written(digits_value(number.digits), number.exponent),
        ),
        None => None,
    }
}

proof fn lemma_prefix_digits(digits: Seq<char>)
    requires
        all_digits(digits),
        digits.len() > 0,
    ensures
        all_digits(digits.drop_last()),
        is_digit(digits.last()),
{
    assert(is_digit(digits[digits.len() - 1]));
    assert forall|i: int| 0 <= i < digits.drop_last().len() implies is_digit(
        #[trigger] digits.drop_last()[i],
    ) by {
        assert(is_digit(digits[i]));
    }
}

proof fn lemma_digits_value_bound(digits: Seq<char>)
    requires
        all_digits(digits),
    ensures
        digits_value(digits) < ten_to(digits.len()),
    decreases digits.len(),
{
    if digits.len() > 0 {
        lemma_prefix_digits(digits);
        lemma_digits_value_bound(digits.drop_last());
    }
}

/// Reads digits as a number, as far as it is no larger than `FAR`.
fn read_up_to_far(digits: &Vec<char>) -> (value: Option<u128>)
    requires
        all_digits(digits@),
    ensures
        match value {
            Some(value) => value <= FAR && value == digits_value(digits@),
            None => digits_value(digits@) > FAR,
        },
{
    let mut value: u128 = 0;
    let mut i: usize = 0;
    assert(digits@.subrange(0, 0) =~= Seq::empty());
    while i < digits.len()
        invariant
            i <= digits@.len(),
            all_digits(digits@),
            value <= FAR,
            value == digits_value(digits@.subrange(0, i as int)),
        decreases digits.len() - i,
    {
        let c = digits[i];
        assert(is_digit(digits@[i as int]));
        let ghost next = digits@.subrange(0, i + 1);
        assert(next.drop_last() == digits@.subrange(0, i as int));
        value = value * 10 + ((c as u128) - ('0' as u128));
        if value > FAR {
            proof {
                lemma_digits_value_grows(digits@, i + 1);
            }
            return None;
        }
        i += 1;
    }
    assert(digits@.subrange(0, digits@.len() as int) =~= digits@);
    Some(value)
}

fn split_sign(text: &str) -> (parts: (bool, String))
    ensures
        (parts.0, parts.1@) == parted_sign(text@),
{
    let chars = to_chars(text);
    if chars.len() > 0 && (chars[0] == '+' || chars[0] == '-') {
        (chars[0] == '-', text.substring_char(1, chars.len()).to_owned())
    } else {
        (false, text.to_owned())
    }
}

fn are_digits(chars: &Vec<char>) -> (yes: bool)
    ensures
        yes == all_digits(chars@),
{
    let mut i: usize = 0;
    while i < chars.len()
        invariant
            i <= chars.len(),
            forall|k: int| 0 <= k < i ==> is_digit(#[trigger] chars@[k]),
        decreases chars.len() - i,
    {
        if !('0' <= chars[i] && chars[i] <= '9') {
            assert(!is_digit(chars@[i as int]));
            return false;
        }
        i += 1;
    }
    true
}

/// An exponent that is far from nothing need not be known exactly.
pub open spec fn is_near(given: int, exponent: int) -> bool {
    ||| given == exponent
    ||| given == FAR && exponent > FAR
    ||| given == -FAR && exponent < -FAR
}

fn read_exponent(text: &str) -> (exponent: Option<i128>)
    ensures
        match exponent {
            Some(given) => exponent_of(text@) is Some && is_near(
                given as int,
                exponent_of(text@)->0,
            ) && -FAR <= given <= FAR,
            None => exponent_of(text@) is None,
        },
{
    let (negative, unsigned) = split_sign(text);
    let digits = to_chars(&unsigned);
    if digits.len() == 0 || !are_digits(&digits) {
        return None;
    }
    let size: u128 = match read_up_to_far(&digits) {
        Some(size) => size,
        None => FAR,
    };
    Some(
        if negative {
            -(size as i128)
        } else {
            size as i128
        },
    )
}

fn split_exponent(text: &str) -> (parts: (String, Option<i128>))
    ensures
        parts.0@ == parted_exponent(text@).0,
        match parts.1 {
            Some(given) => parted_exponent(text@).1 is Some && is_near(
                given as int,
                parted_exponent(text@).1->0,
            ) && -FAR <= given <= FAR,
            None => parted_exponent(text@).1 is None,
        },
{
    match split_once(text, 'e') {
        Some((mantissa, exponent)) => (mantissa, read_exponent(&exponent)),
        None => match split_once(text, 'E') {
            Some((mantissa, exponent)) => (mantissa, read_exponent(&exponent)),
            None => (text.to_owned(), Some(0)),
        },
    }
}

/// Reads the double nearest to the number that a text stands for.
pub fn read_double(text: &str) -> (number: Option<Double>)
    ensures
        is_double(number, text_double(text@)),
{
    let (negative, unsigned) = split_sign(text);
    let (mantissa, exponent) = split_exponent(&unsigned);
    let exponent = match exponent {
        Some(exponent) => exponent,
        None => {
            return None;
        },
    };
    let (whole, fraction) = match split_once(&mantissa, '.') {
        Some((whole, fraction)) => (to_chars(&whole), to_chars(&fraction)),
        None => (to_chars(&mantissa), Vec::new()),
    };
    assert(cut(mantissa@, '.') is None ==> fraction@ =~= Seq::empty());
    let behind: usize = fraction.len();
    let mut digits = whole;
    let mut rest = fraction;
    digits.append(&mut rest);
    if digits.len() == 0 || !are_digits(&digits) {
        return None;
    }
    let power: i128 = exponent - behind as i128;
    proof {
        let exact = parted_exponent(unsigned@).1->0;
        if exponent != exact {
            lemma_digits_value_bound(digits@);
            lemma_far_exponents_agree(
                digits_value(digits@),
                digits@.len(),
                exact - behind,
                power as int,
            );
        }
    }
    from_written(negative, &digits, power)
}

/// A minus sign turns a number round, a plus sign leaves it.
pub proof fn law_signs_are_read(text: Seq<char>)
    requires
        text.len() == 0 || (text[0] != '+' && text[0] != '-'),
    ensures
        text_double(seq!['+'] + text) == text_double(text),
        text_double(text) is None ==> text_double(seq!['-'] + text) is None,
        text_double(text) is Some ==> text_double(seq!['-'] + text) == Some(-text_double(text)->0),
{
    let plus = seq!['+'] + text;
    let minus = seq!['-'] + text;
    assert(plus.subrange(1, plus.len() as int) =~= text);
    assert(minus.subrange(1, minus.len() as int) =~= text);
}

/// A point moves the digits behind it; an exponent moves the point.
pub proof fn law_points_and_exponents_are_read(
    whole: Seq<char>,
    fraction: Seq<char>,
    exponent: Seq<char>,
)
    requires
        whole.len() > 0,
        all_digits(whole),
        all_digits(fraction),
        exponent.len() > 0,
        all_digits(exponent),
    ensures
        decimal_of(whole) == Some(DecimalView { negative: false, digits: whole, exponent: 0 }),
        decimal_of(whole.push('.') + fraction) == Some(
            DecimalView {
                negative: false,
                digits: whole + fraction,
                exponent: -(fraction.len() as int),
            },
        ),
        decimal_of(whole.push('e') + exponent) == Some(
            DecimalView {
                negative: false,
                digits: whole,
                exponent: digits_value(exponent) as int,
            },
        ),
        decimal_of(whole.push('e') + (seq!['-'] + exponent)) == Some(
            DecimalView {
                negative: false,
                digits: whole,
                exponent: -(digits_value(exponent) as int),
            },
        ),
{
    assert(is_digit(whole[0]));
    assert(is_digit(exponent[0]));
    lemma_no_marks(whole);
    lemma_no_marks(fraction);
    crate::text::law_text_is_cut_at_the_first(whole, '.', fraction);
    crate::text::law_text_is_cut_at_the_first(whole, 'e', exponent);
    crate::text::law_text_is_cut_at_the_first(whole, 'e', seq!['-'] + exponent);
    crate::text::law_text_is_cut_at_the_first(whole, 'E', fraction);
    assert((seq!['-'] + exponent).subrange(1, exponent.len() as int + 1) =~= exponent);
    assert(whole + Seq::<char>::empty() =~= whole);
    let pointed = whole.push('.') + fraction;
    assert(!pointed.contains('e') && !pointed.contains('E')) by {
        assert forall|i: int| 0 <= i < pointed.len() implies pointed[i] != 'e' && pointed[i]
            != 'E' by {
            if i < whole.len() {
                assert(pointed[i] == whole[i]);
                assert(is_digit(whole[i]));
            } else if i > whole.len() {
                assert(pointed[i] == fraction[i - whole.len() - 1]);
                assert(is_digit(fraction[i - whole.len() - 1]));
            }
        }
    }
    pointed.index_of_first_ensures('e');
    pointed.index_of_first_ensures('E');
    assert(all_digits(whole + fraction)) by {
        assert forall|i: int| 0 <= i < (whole + fraction).len() implies is_digit(
            #[trigger] (whole + fraction)[i],
        ) by {
            if i < whole.len() {
                assert(is_digit(whole[i]));
            } else {
                assert(is_digit(fraction[i - whole.len()]));
            }
        }
    }
}

proof fn lemma_no_marks(digits: Seq<char>)
    requires
        all_digits(digits),
    ensures
        !digits.contains('.'),
        !digits.contains('e'),
        !digits.contains('E'),
{
    assert forall|i: int| 0 <= i < digits.len() implies digits[i] != '.' && digits[i] != 'e'
        && digits[i] != 'E' by {
        assert(is_digit(digits[i]));
    }
}

} // verus!
