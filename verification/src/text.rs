//! String helpers whose results are stated over character sequences.

use vstd::prelude::*;
use vstd::utf8::{decode_utf8, valid_utf8};

verus! {

/// `String::push` appends one character.
pub assume_specification[ std::string::String::push ](s: &mut std::string::String, ch: char)
    ensures
        final(s)@ == old(s)@.push(ch),
;

/// The text with `prefix` at its front.
pub open spec fn has_prefix(text: Seq<char>, prefix: Seq<char>) -> bool {
    prefix.len() <= text.len() && text.subrange(0, prefix.len() as int) == prefix
}

/// `needle` stands in `text` with its first character at `at`.
pub open spec fn occurs_at(text: Seq<char>, needle: Seq<char>, at: int) -> bool {
    0 <= at && at + needle.len() <= text.len() && text.subrange(at, at + needle.len()) == needle
}

/// `needle` stands somewhere in `text`.
pub open spec fn contains_text(text: Seq<char>, needle: Seq<char>) -> bool {
    exists|at: int| #[trigger] occurs_at(text, needle, at)
}

/// The Unicode `White_Space` property.
pub open spec fn is_white_space(c: char) -> bool {
    let code = c as u32;
    ||| 0x09 <= code <= 0x0d
    ||| code == 0x20
    ||| code == 0x85
    ||| code == 0xa0
    ||| code == 0x1680
    ||| 0x2000 <= code <= 0x200a
    ||| code == 0x2028
    ||| code == 0x2029
    ||| code == 0x202f
    ||| code == 0x205f
    ||| code == 0x3000
}

pub open spec fn trim_start_spec(text: Seq<char>) -> Seq<char>
    decreases text.len(),
{
    if text.len() > 0 && is_white_space(text.first()) {
        trim_start_spec(text.drop_first())
    } else {
        text
    }
}

pub open spec fn trim_end_spec(text: Seq<char>) -> Seq<char>
    decreases text.len(),
{
    if text.len() > 0 && is_white_space(text.last()) {
        trim_end_spec(text.drop_last())
    } else {
        text
    }
}

/// The text without the white space at both ends.
pub open spec fn trimmed(text: Seq<char>) -> Seq<char> {
    trim_end_spec(trim_start_spec(text))
}

/// The pieces in order with `separator` between neighbours.
pub open spec fn joined(pieces: Seq<Seq<char>>, separator: Seq<char>) -> Seq<char>
    decreases pieces.len(),
{
    if pieces.len() == 0 {
        Seq::empty()
    } else if pieces.len() == 1 {
        pieces[0]
    } else {
        joined(pieces.drop_last(), separator) + separator + pieces.last()
    }
}

pub open spec fn views(pieces: Seq<String>) -> Seq<Seq<char>> {
    pieces.map_values(|piece: String| piece@)
}

pub open spec fn is_digit(c: char) -> bool {
    '0' <= c <= '9'
}

/// The number that a run of decimal digits stands for.
pub open spec fn digits_value(digits: Seq<char>) -> nat
    decreases digits.len(),
{
    if digits.len() == 0 {
        0
    } else {
        digits_value(digits.drop_last()) * 10 + (digits.last() as nat - '0' as nat) as nat
    }
}

pub open spec fn all_digits(text: Seq<char>) -> bool {
    forall|i: int| 0 <= i < text.len() ==> is_digit(#[trigger] text[i])
}

pub open spec fn without_plus(text: Seq<char>) -> Seq<char> {
    if text.len() > 0 && text[0] == '+' {
        text.subrange(1, text.len() as int)
    } else {
        text
    }
}

/// What an unsigned decimal number of at most `max` may look like: digits, and
/// one plus sign allowed before them.
pub open spec fn parsed_unsigned(text: Seq<char>, max: nat) -> Option<nat> {
    let digits = without_plus(text);
    if digits.len() > 0 && all_digits(digits) && digits_value(digits) <= max {
        Some(digits_value(digits))
    } else {
        None
    }
}

/// The decimal digits of a number, without leading zeros.
pub open spec fn decimal(n: nat) -> Seq<char>
    decreases n,
{
    if n < 10 {
        seq![digit_char(n)]
    } else {
        decimal(n / 10).push(digit_char(n % 10))
    }
}

pub open spec fn digit_char(d: nat) -> char {
    (d + '0' as nat) as char
}

pub open spec fn lower_ascii_char(c: char) -> char {
    if 'A' <= c <= 'Z' {
        ((c as u8) + 32) as char
    } else {
        c
    }
}

/// The text with its ASCII capitals made small.
pub open spec fn lower_ascii(text: Seq<char>) -> Seq<char> {
    text.map_values(|c: char| lower_ascii_char(c))
}

pub fn same_text(a: &str, b: &str) -> (same: bool)
    ensures
        same == (a@ == b@),
{
    a.to_owned() == b.to_owned()
}

pub fn to_chars(text: &str) -> (chars: Vec<char>)
    ensures
        chars@ == text@,
{
    let mut chars: Vec<char> = Vec::new();
    for c in iter: text.chars()
        invariant
            iter.seq() == text@,
            chars@ == text@.subrange(0, iter.index() as int),
    {
        chars.push(c);
    }
    chars
}

pub fn concat2(a: &str, b: &str) -> (text: String)
    ensures
        text@ == a@ + b@,
{
    let mut text = a.to_owned();
    text.append(b);
    text
}

pub fn concat3(a: &str, b: &str, c: &str) -> (text: String)
    ensures
        text@ == a@ + b@ + c@,
{
    let mut text = concat2(a, b);
    text.append(c);
    text
}

pub fn concat4(a: &str, b: &str, c: &str, d: &str) -> (text: String)
    ensures
        text@ == a@ + b@ + c@ + d@,
{
    let mut text = concat3(a, b, c);
    text.append(d);
    text
}

pub fn concat5(a: &str, b: &str, c: &str, d: &str, e: &str) -> (text: String)
    ensures
        text@ == a@ + b@ + c@ + d@ + e@,
{
    let mut text = concat4(a, b, c, d);
    text.append(e);
    text
}

pub fn is_whitespace(c: char) -> (white: bool)
    ensures
        white == is_white_space(c),
{
    let code = c as u32;
    (0x09 <= code && code <= 0x0d) || code == 0x20 || code == 0x85 || code == 0xa0 || code == 0x1680
        || (0x2000 <= code && code <= 0x200a) || code == 0x2028 || code == 0x2029 || code == 0x202f
        || code == 0x205f || code == 0x3000
}

/// The text without the white space at its end.
pub fn trim_end(text: &str) -> (kept: String)
    ensures
        kept@ == trim_end_spec(text@),
{
    let chars = to_chars(text);
    let mut end: usize = chars.len();
    assert(text@.subrange(0, end as int) == text@);
    while end > 0 && is_whitespace(chars[end - 1])
        invariant
            end <= chars.len(),
            chars@ == text@,
            trim_end_spec(text@) == trim_end_spec(text@.subrange(0, end as int)),
        decreases end,
    {
        assert(text@.subrange(0, end as int).drop_last() == text@.subrange(0, end - 1));
        end -= 1;
    }
    text.substring_char(0, end).to_owned()
}

pub fn trim_start(text: &str) -> (kept: String)
    ensures
        kept@ == trim_start_spec(text@),
{
    let chars = to_chars(text);
    let mut start: usize = 0;
    assert(text@.subrange(0, text@.len() as int) == text@);
    while start < chars.len() && is_whitespace(chars[start])
        invariant
            start <= chars.len(),
            chars@ == text@,
            trim_start_spec(text@) == trim_start_spec(text@.subrange(start as int, text@.len() as int)),
        decreases chars.len() - start,
    {
        let ghost rest = text@.subrange(start as int, text@.len() as int);
        assert(rest.drop_first() == text@.subrange(start + 1, text@.len() as int));
        start += 1;
    }
    text.substring_char(start, chars.len()).to_owned()
}

/// The text without the white space at both ends.
pub fn trim(text: &str) -> (kept: String)
    ensures
        kept@ == trimmed(text@),
{
    trim_end(&trim_start(text))
}

/// Appends a piece.
pub fn push_piece(pieces: &mut Vec<String>, piece: String)
    ensures
        views(final(pieces)@) == views(old(pieces)@).push(piece@),
{
    pieces.push(piece);
    assert(views(pieces@) =~= views(old(pieces)@).push(piece@));
}

/// The pieces in order with `separator` between neighbours.
pub fn join(pieces: &[String], separator: &str) -> (text: String)
    ensures
        text@ == joined(views(pieces@), separator@),
{
    let mut text = String::new();
    let mut i: usize = 0;
    while i < pieces.len()
        invariant
            i <= pieces.len(),
            text@ == joined(views(pieces@.subrange(0, i as int)), separator@),
        decreases pieces.len() - i,
    {
        let ghost done = views(pieces@.subrange(0, i + 1));
        assert(done.drop_last() == views(pieces@.subrange(0, i as int)));
        if i > 0 {
            text.append(separator);
        }
        text.append(&pieces[i]);
        assert(i == 0 ==> text@ == pieces[0]@);
        i += 1;
    }
    assert(pieces@.subrange(0, i as int) == pieces@);
    text
}

fn chars_at(text: &Vec<char>, needle: &Vec<char>, at: usize) -> (found: bool)
    requires
        at + needle.len() <= text.len(),
    ensures
        found == occurs_at(text@, needle@, at as int),
{
    let mut i: usize = 0;
    while i < needle.len()
        invariant
            i <= needle.len(),
            at + needle.len() <= text.len(),
            forall|k: int| 0 <= k < i ==> text[at + k] == needle[k],
        decreases needle.len() - i,
    {
        if text[at + i] != needle[i] {
            assert(text@.subrange(at as int, at + needle.len())[i as int] != needle[i as int]);
            return false;
        }
        i += 1;
    }
    assert(text@.subrange(at as int, at + needle.len()) == needle@);
    true
}

pub fn starts_with(text: &str, prefix: &str) -> (found: bool)
    ensures
        found == has_prefix(text@, prefix@),
{
    let chars = to_chars(text);
    let wanted = to_chars(prefix);
    if wanted.len() > chars.len() {
        return false;
    }
    chars_at(&chars, &wanted, 0)
}

pub fn contains(text: &str, needle: &str) -> (found: bool)
    ensures
        found == contains_text(text@, needle@),
{
    let chars = to_chars(text);
    let wanted = to_chars(needle);
    if wanted.len() > chars.len() {
        return false;
    }
    let mut at: usize = 0;
    while at <= chars.len() - wanted.len()
        invariant
            chars@ == text@,
            wanted@ == needle@,
            wanted.len() <= chars.len(),
            at <= chars.len() - wanted.len() + 1,
            forall|k: int| 0 <= k < at ==> !#[trigger] occurs_at(text@, needle@, k),
        decreases chars.len() - wanted.len() + 1 - at,
    {
        if chars_at(&chars, &wanted, at) {
            return true;
        }
        if at == chars.len() - wanted.len() {
            return false;
        }
        at += 1;
    }
    false
}

/// Where `needle` first stands in `text`, counted in characters.
pub open spec fn is_first_at(text: Seq<char>, needle: Seq<char>, at: int) -> bool {
    &&& occurs_at(text, needle, at)
    &&& forall|k: int| 0 <= k < at ==> !#[trigger] occurs_at(text, needle, k)
}

pub fn find(text: &str, needle: &str) -> (found: Option<usize>)
    ensures
        match found {
            Some(at) => is_first_at(text@, needle@, at as int),
            None => !contains_text(text@, needle@),
        },
{
    let chars = to_chars(text);
    let wanted = to_chars(needle);
    if wanted.len() > chars.len() {
        return None;
    }
    let mut at: usize = 0;
    loop
        invariant
            chars@ == text@,
            wanted@ == needle@,
            wanted.len() <= chars.len(),
            at <= chars.len() - wanted.len(),
            forall|k: int| 0 <= k < at ==> !#[trigger] occurs_at(text@, needle@, k),
        decreases chars.len() - wanted.len() - at,
    {
        if chars_at(&chars, &wanted, at) {
            return Some(at);
        }
        if at == chars.len() - wanted.len() {
            return None;
        }
        at += 1;
    }
}

/// The text with hyphens for its underscores.
pub open spec fn hyphenated(text: Seq<char>) -> Seq<char> {
    text.map_values(
        |c: char|
            if c == '_' {
                '-'
            } else {
                c
            },
    )
}

/// The text with hyphens for its underscores.
pub fn hyphenate(text: &str) -> (name: String)
    ensures
        name@ == hyphenated(text@),
{
    let chars = to_chars(text);
    let mut name = String::new();
    let mut i: usize = 0;
    while i < chars.len()
        invariant
            chars@ == text@,
            i <= chars.len(),
            name@ == hyphenated(text@.subrange(0, i as int)),
        decreases chars.len() - i,
    {
        if chars[i] == '_' {
            name.push('-');
        } else {
            name.push(chars[i]);
        }
        assert(name@ =~= hyphenated(text@.subrange(0, i + 1)));
        i += 1;
    }
    assert(text@.subrange(0, i as int) == text@);
    name
}

/// The text with its ASCII capitals made small.
pub fn to_ascii_lowercase(text: &str) -> (lower: String)
    ensures
        lower@ == lower_ascii(text@),
{
    let chars = to_chars(text);
    let mut lower = String::new();
    let mut i: usize = 0;
    while i < chars.len()
        invariant
            chars@ == text@,
            i <= chars.len(),
            lower@ == lower_ascii(text@.subrange(0, i as int)),
        decreases chars.len() - i,
    {
        let c = chars[i];
        if 'A' <= c && c <= 'Z' {
            lower.push(((c as u8) + 32) as char);
        } else {
            lower.push(c);
        }
        assert(lower@ =~= lower_ascii(text@.subrange(0, i + 1)));
        i += 1;
    }
    assert(text@.subrange(0, i as int) == text@);
    lower
}

pub proof fn lemma_digits_value_grows(digits: Seq<char>, n: int)
    requires
        0 <= n <= digits.len(),
    ensures
        digits_value(digits.subrange(0, n)) <= digits_value(digits),
    decreases digits.len() - n,
{
    if n < digits.len() {
        assert(digits.subrange(0, n + 1).drop_last() == digits.subrange(0, n));
        lemma_digits_value_grows(digits, n + 1);
    } else {
        assert(digits.subrange(0, n) == digits);
    }
}

/// Reads an unsigned decimal number of at most `max`.
pub fn parse_unsigned(text: &str, max: u64) -> (number: Option<u64>)
    ensures
        match number {
            Some(n) => parsed_unsigned(text@, max as nat) == Some(n as nat),
            None => parsed_unsigned(text@, max as nat) is None,
        },
{
    let chars = to_chars(text);
    let start: usize = if chars.len() > 0 && chars[0] == '+' {
        1
    } else {
        0
    };
    let ghost digits = text@.subrange(start as int, text@.len() as int);
    assert(digits == without_plus(text@));
    if start == chars.len() {
        return None;
    }
    let mut value: u64 = 0;
    let mut i: usize = start;
    while i < chars.len()
        invariant
            chars@ == text@,
            start <= i <= chars.len(),
            digits == text@.subrange(start as int, text@.len() as int),
            digits == without_plus(text@),
            all_digits(digits.subrange(0, i - start)),
            value == digits_value(digits.subrange(0, i - start)),
            value <= max,
        decreases chars.len() - i,
    {
        let c = chars[i];
        assert(digits[i - start] == c);
        if !('0' <= c && c <= '9') {
            return None;
        }
        let ghost next = digits.subrange(0, i + 1 - start);
        assert(next.drop_last() == digits.subrange(0, i - start));
        assert(digits_value(next) == value * 10 + (c as nat - '0' as nat) as nat);
        let digit: u64 = (c as u64) - ('0' as u64);
        let wide: u128 = (value as u128) * 10 + (digit as u128);
        if wide > max as u128 {
            proof {
                lemma_digits_value_grows(digits, i + 1 - start);
            }
            return None;
        }
        value = wide as u64;
        i += 1;
    }
    assert(digits.subrange(0, i - start) == digits);
    Some(value)
}

/// Writes a number in decimal.
pub fn decimal_text(n: u64) -> (text: String)
    ensures
        text@ == decimal(n as nat),
    decreases n,
{
    let digit: u8 = (n % 10) as u8 + 48;
    let mut text = if n < 10 {
        String::new()
    } else {
        decimal_text(n / 10)
    };
    text.push(digit as char);
    text
}

/// The text before and after the first `c`.
pub open spec fn cut(text: Seq<char>, c: char) -> Option<(Seq<char>, Seq<char>)> {
    match text.index_of_first(c) {
        Some(at) => Some((text.subrange(0, at), text.subrange(at + 1, text.len() as int))),
        None => None,
    }
}

/// Cuts the text at the first `c`.
pub fn split_once(text: &str, c: char) -> (parts: Option<(String, String)>)
    ensures
        match parts {
            Some((before, after)) => cut(text@, c) == Some((before@, after@)),
            None => cut(text@, c) is None,
        },
{
    let chars = to_chars(text);
    proof {
        text@.index_of_first_ensures(c);
    }
    let mut i: usize = 0;
    while i < chars.len()
        invariant
            chars@ == text@,
            i <= chars.len(),
            forall|k: int| 0 <= k < i ==> chars[k] != c,
        decreases chars.len() - i,
    {
        if chars[i] == c {
            proof {
                text@.index_of_first_ensures(c);
                assert(text@.contains(c));
                let first = text@.index_of_first(c)->0;
                assert(chars[first] == c);
                assert(first == i);
            }
            let before = text.substring_char(0, i).to_owned();
            let after = text.substring_char(i + 1, chars.len()).to_owned();
            return Some((before, after));
        }
        i += 1;
    }
    None
}

/// The text without the characters of `dropped` at its end.
pub open spec fn trim_end_any_spec(text: Seq<char>, dropped: Seq<char>) -> Seq<char>
    decreases text.len(),
{
    if text.len() > 0 && dropped.contains(text.last()) {
        trim_end_any_spec(text.drop_last(), dropped)
    } else {
        text
    }
}

fn is_one_of(c: char, chars: &Vec<char>) -> (found: bool)
    ensures
        found == chars@.contains(c),
{
    let mut i: usize = 0;
    while i < chars.len()
        invariant
            i <= chars.len(),
            forall|k: int| 0 <= k < i ==> chars[k] != c,
        decreases chars.len() - i,
    {
        if chars[i] == c {
            return true;
        }
        i += 1;
    }
    false
}

/// The text without the characters of `dropped` at its end.
pub fn trim_end_any(text: &str, dropped: &str) -> (kept: String)
    ensures
        kept@ == trim_end_any_spec(text@, dropped@),
{
    let chars = to_chars(text);
    let set = to_chars(dropped);
    let mut end: usize = chars.len();
    assert(text@.subrange(0, end as int) == text@);
    while end > 0 && is_one_of(chars[end - 1], &set)
        invariant
            end <= chars.len(),
            chars@ == text@,
            set@ == dropped@,
            trim_end_any_spec(text@, dropped@) == trim_end_any_spec(
                text@.subrange(0, end as int),
                dropped@,
            ),
        decreases end,
    {
        assert(text@.subrange(0, end as int).drop_last() == text@.subrange(0, end - 1));
        end -= 1;
    }
    text.substring_char(0, end).to_owned()
}

/// The text before `suffix`, where it ends so.
pub open spec fn before_suffix(text: Seq<char>, suffix: Seq<char>) -> Option<Seq<char>> {
    if occurs_at(text, suffix, text.len() - suffix.len()) {
        Some(text.subrange(0, text.len() - suffix.len()))
    } else {
        None
    }
}

/// The text before `suffix`, where it ends so.
pub fn strip_suffix(text: &str, suffix: &str) -> (rest: Option<String>)
    ensures
        match rest {
            Some(rest) => before_suffix(text@, suffix@) == Some(rest@),
            None => before_suffix(text@, suffix@) is None,
        },
{
    let chars = to_chars(text);
    let wanted = to_chars(suffix);
    if wanted.len() > chars.len() {
        return None;
    }
    let start: usize = chars.len() - wanted.len();
    if chars_at(&chars, &wanted, start) {
        Some(text.substring_char(0, start).to_owned())
    } else {
        None
    }
}

/// How many characters the text begins with that are not white space.
pub open spec fn word_len(text: Seq<char>) -> nat
    decreases text.len(),
{
    if text.len() > 0 && !is_white_space(text.first()) {
        1 + word_len(text.drop_first())
    } else {
        0
    }
}

/// The first run of characters that are not white space.
pub open spec fn first_word(text: Seq<char>) -> Option<Seq<char>> {
    let rest = trim_start_spec(text);
    if rest.len() == 0 {
        None
    } else {
        Some(rest.subrange(0, word_len(rest) as int))
    }
}

/// How many characters from `from` on are not white space.
pub fn count_word(chars: &Vec<char>, from: usize) -> (end: usize)
    requires
        from <= chars.len(),
    ensures
        from <= end <= chars.len(),
        end - from == word_len(chars@.subrange(from as int, chars@.len() as int)),
{
    let ghost text = chars@;
    let mut end: usize = from;
    while end < chars.len() && !is_whitespace(chars[end])
        invariant
            text == chars@,
            from <= end <= chars.len(),
            word_len(text.subrange(from as int, text.len() as int)) == end - from + word_len(
                text.subrange(end as int, text.len() as int),
            ),
        decreases chars.len() - end,
    {
        let ghost rest = text.subrange(end as int, text.len() as int);
        assert(rest.drop_first() == text.subrange(end + 1, text.len() as int));
        end += 1;
    }
    end
}

/// The first run of characters that are not white space.
pub fn next_word(text: &str) -> (word: Option<String>)
    ensures
        match word {
            Some(word) => first_word(text@) == Some(word@),
            None => first_word(text@) is None,
        },
{
    let rest = trim_start(text);
    let chars = to_chars(&rest);
    if chars.len() == 0 {
        return None;
    }
    assert(chars@.subrange(0, chars@.len() as int) == chars@);
    let end: usize = count_word(&chars, 0);
    Some(rest.as_str().substring_char(0, end).to_owned())
}

/// What follows the first `needle`.
pub open spec fn text_after(text: Seq<char>, needle: Seq<char>) -> Option<Seq<char>> {
    if contains_text(text, needle) {
        let at = choose|at: int| is_first_at(text, needle, at);
        Some(text.subrange(at + needle.len(), text.len() as int))
    } else {
        None
    }
}

/// What follows the first `needle`.
pub fn rest_after(text: &str, needle: &str) -> (rest: Option<String>)
    ensures
        match rest {
            Some(rest) => text_after(text@, needle@) == Some(rest@),
            None => text_after(text@, needle@) is None,
        },
{
    match find(text, needle) {
        Some(at) => {
            let ghost first = choose|at: int| is_first_at(text@, needle@, at);
            assert(first == at) by {
                assert(is_first_at(text@, needle@, at as int));
                assert(occurs_at(text@, needle@, first));
            }
            let end: usize = text.unicode_len();
            let start: usize = at + needle.unicode_len();
            Some(text.substring_char(start, end).to_owned())
        },
        None => None,
    }
}

/// Reads digits as a number, unless it takes more than 64 bits.
pub fn read_digits(chars: &Vec<char>, from: usize, to: usize) -> (amount: Option<u64>)
    requires
        from <= to <= chars@.len(),
        all_digits(chars@.subrange(from as int, to as int)),
    ensures
        match amount {
            Some(amount) => amount == digits_value(chars@.subrange(from as int, to as int)),
            None => digits_value(chars@.subrange(from as int, to as int)) > u64::MAX,
        },
{
    let ghost digits = chars@.subrange(from as int, to as int);
    let mut value: u64 = 0;
    let mut i: usize = from;
    assert(digits.subrange(0, 0) =~= Seq::empty());
    while i < to
        invariant
            from <= i <= to <= chars@.len(),
            digits == chars@.subrange(from as int, to as int),
            all_digits(digits),
            value == digits_value(digits.subrange(0, i - from)),
        decreases to - i,
    {
        let c = chars[i];
        assert(digits[i - from] == c);
        let ghost next = digits.subrange(0, i + 1 - from);
        assert(next.drop_last() == digits.subrange(0, i - from));
        let wide: u128 = (value as u128) * 10 + ((c as u128) - ('0' as u128));
        if wide > u64::MAX as u128 {
            proof {
                lemma_digits_value_grows(digits, i + 1 - from);
            }
            return None;
        }
        value = wide as u64;
        i += 1;
    }
    assert(digits.subrange(0, i - from) == digits);
    Some(value)
}

/// The text that bytes stand for, with a replacement character for what is no
/// UTF-8.
pub uninterp spec fn lossy_text(bytes: Seq<u8>) -> Seq<char>;

/// `String::from_utf8_lossy`: the text depends on the bytes alone, and valid
/// UTF-8 is read as it is.
#[verifier::external_body]
pub(crate) fn from_utf8_lossy(bytes: &[u8]) -> (text: String)
    ensures
        text@ == lossy_text(bytes@),
        valid_utf8(bytes@) ==> text@ == decode_utf8(bytes@),
{
    String::from_utf8_lossy(bytes).into_owned()
}

// ---------------------------------------------------------------------------
// What the operations on text are for

/// Trimming drops the white space at both ends and nothing else.
pub proof fn law_trimming_drops_white_space(text: Seq<char>)
    ensures
        exists|start: int, end: int|
            {
                &&& 0 <= start <= end <= text.len()
                &&& trimmed(text) == #[trigger] text.subrange(start, end)
                &&& forall|i: int| 0 <= i < start ==> is_white_space(#[trigger] text[i])
                &&& forall|i: int| end <= i < text.len() ==> is_white_space(#[trigger] text[i])
            },
        trimmed(text).len() > 0 ==> !is_white_space(trimmed(text)[0]) && !is_white_space(
            trimmed(text).last(),
        ),
        trimmed(text).len() == 0 ==> forall|i: int|
            0 <= i < text.len() ==> is_white_space(#[trigger] text[i]),
{
    lemma_trim_start(text);
    let rest = trim_start_spec(text);
    lemma_trim_end(rest);
    let start = text.len() - rest.len();
    let end = start + trim_end_spec(rest).len();
    assert(trimmed(text) =~= text.subrange(start, end));
    assert forall|i: int| end <= i < text.len() implies is_white_space(#[trigger] text[i]) by {
        assert(rest[i - start] == text[i]);
    }
}

proof fn lemma_trim_start(text: Seq<char>)
    ensures
        trim_start_spec(text).len() <= text.len(),
        trim_start_spec(text) == text.subrange(
            text.len() - trim_start_spec(text).len(),
            text.len() as int,
        ),
        forall|i: int|
            0 <= i < text.len() - trim_start_spec(text).len() ==> is_white_space(
                #[trigger] text[i],
            ),
        trim_start_spec(text).len() > 0 ==> !is_white_space(trim_start_spec(text)[0]),
    decreases text.len(),
{
    if text.len() > 0 && is_white_space(text.first()) {
        let rest = text.drop_first();
        lemma_trim_start(rest);
        let kept = trim_start_spec(text);
        assert(kept =~= text.subrange(text.len() - kept.len(), text.len() as int));
        assert forall|i: int| 0 <= i < text.len() - kept.len() implies is_white_space(
            #[trigger] text[i],
        ) by {
            if i > 0 {
                assert(rest[i - 1] == text[i]);
            }
        }
    } else {
        assert(text.subrange(0, text.len() as int) =~= text);
    }
}

/// Trimming the end drops the white space there and nothing else.
proof fn lemma_trim_end(text: Seq<char>)
    ensures
        trim_end_spec(text).len() <= text.len(),
        trim_end_spec(text) == text.subrange(0, trim_end_spec(text).len() as int),
        forall|i: int|
            trim_end_spec(text).len() <= i < text.len() ==> is_white_space(#[trigger] text[i]),
        trim_end_spec(text).len() > 0 ==> !is_white_space(trim_end_spec(text).last()),
    decreases text.len(),
{
    if text.len() > 0 && is_white_space(text.last()) {
        let rest = text.drop_last();
        lemma_trim_end(rest);
        let kept = trim_end_spec(text);
        assert(kept =~= text.subrange(0, kept.len() as int));
        assert forall|i: int| kept.len() <= i < text.len() implies is_white_space(
            #[trigger] text[i],
        ) by {
            if i < rest.len() {
                assert(rest[i] == text[i]);
            }
        }
    } else {
        assert(text.subrange(0, text.len() as int) =~= text);
    }
}

/// Of the first 128 characters, those from tab to carriage return and the space are
/// white space.
pub proof fn law_ascii_white_space(c: char)
    requires
        (c as u32) < 128,
    ensures
        is_white_space(c) == (c == ' ' || c == '\t' || c == '\n' || c == '\r' || c as u32 == 11
            || c as u32 == 12),
{
}

/// A further piece is joined on behind the separator; a first one stands alone.
pub proof fn law_pieces_are_joined(
    pieces: Seq<Seq<char>>,
    piece: Seq<char>,
    separator: Seq<char>,
)
    ensures
        joined(Seq::empty(), separator).len() == 0,
        joined(seq![piece], separator) == piece,
        pieces.len() > 0 ==> joined(pieces.push(piece), separator) == joined(pieces, separator)
            + separator + piece,
{
    assert(pieces.push(piece).drop_last() =~= pieces);
}

/// Small letters stay, capitals become small, and everything else stays.
pub proof fn law_small_letters(text: Seq<char>, i: int)
    requires
        0 <= i < text.len(),
    ensures
        lower_ascii(text).len() == text.len(),
        !('A' <= text[i] <= 'Z') ==> lower_ascii(text)[i] == text[i],
        text[i] == 'A' ==> lower_ascii(text)[i] == 'a',
        text[i] == 'Z' ==> lower_ascii(text)[i] == 'z',
        'A' <= text[i] <= 'Z' ==> 'a' <= lower_ascii(text)[i] <= 'z' && lower_ascii(text)[i] as u32
            == text[i] as u32 + 32,
{
}

/// Underscores become hyphens, and everything else stays.
pub proof fn law_underscores_become_hyphens(text: Seq<char>, i: int)
    requires
        0 <= i < text.len(),
    ensures
        hyphenated(text).len() == text.len(),
        text[i] == '_' ==> hyphenated(text)[i] == '-',
        text[i] != '_' ==> hyphenated(text)[i] == text[i],
{
}

/// A text contains what stands anywhere in it, and begins with what stands first.
pub proof fn law_parts_are_found(before: Seq<char>, needle: Seq<char>, after: Seq<char>)
    ensures
        contains_text(before + needle + after, needle),
        has_prefix(needle + after, needle),
        has_prefix(after, needle) ==> after == needle + after.subrange(
            needle.len() as int,
            after.len() as int,
        ),
        before_suffix(before + needle, needle) == Some(before),
{
    let whole = before + needle + after;
    let at = before.len() as int;
    assert(whole.subrange(at, at + needle.len()) =~= needle);
    assert(occurs_at(whole, needle, at));
    assert((needle + after).subrange(0, needle.len() as int) =~= needle);
    let ended = before + needle;
    assert(ended.subrange(at, ended.len() as int) =~= needle);
    assert(ended.subrange(0, at) =~= before);
    if has_prefix(after, needle) {
        assert(after =~= needle + after.subrange(needle.len() as int, after.len() as int));
    }
}

/// What stands behind the first place of a needle is found; without the needle there
/// is nothing behind it.
pub proof fn law_rest_is_found(before: Seq<char>, needle: Seq<char>, after: Seq<char>)
    requires
        forall|k: int| 0 <= k < before.len() ==> !#[trigger] occurs_at(
            before + needle + after,
            needle,
            k,
        ),
    ensures
        text_after(before + needle + after, needle) == Some(after),
        !contains_text(after, needle) ==> text_after(after, needle) is None,
{
    let whole = before + needle + after;
    let at = before.len() as int;
    law_parts_are_found(before, needle, after);
    assert(whole.subrange(at, at + needle.len()) =~= needle);
    assert(is_first_at(whole, needle, at));
    let found = choose|k: int| is_first_at(whole, needle, k);
    assert(is_first_at(whole, needle, found));
    if found > at {
        assert(!occurs_at(whole, needle, at));
    } else if found < at {
        assert(occurs_at(whole, needle, found));
    }
    assert(whole.subrange(at + needle.len(), whole.len() as int) =~= after);
}

/// A text is cut at the first place of a character: what stands before it, and what
/// stands behind it.
pub proof fn law_text_is_cut_at_the_first(before: Seq<char>, c: char, after: Seq<char>)
    requires
        !before.contains(c),
    ensures
        cut(before.push(c) + after, c) == Some((before, after)),
        cut(before, c) is None,
{
    let whole = before.push(c) + after;
    whole.index_of_first_ensures(c);
    before.index_of_first_ensures(c);
    assert(whole[before.len() as int] == c);
    assert(whole.contains(c));
    let at = whole.index_of_first(c)->0;
    if at < before.len() {
        assert(before[at] == c);
        assert(before.contains(c));
    } else if at > before.len() {
        assert(whole[before.len() as int] == c);
    }
    assert(whole.subrange(0, before.len() as int) =~= before);
    assert(whole.subrange(before.len() as int + 1, whole.len() as int) =~= after);
}

/// Dropping characters from the end drops all of them there, and nothing else.
pub proof fn law_trailing_characters_are_dropped(text: Seq<char>, dropped: Seq<char>)
    ensures
        ({
            let kept = trim_end_any_spec(text, dropped);
            &&& kept.len() <= text.len()
            &&& kept == text.subrange(0, kept.len() as int)
            &&& kept.len() > 0 ==> !dropped.contains(kept.last())
            &&& forall|i: int|
                kept.len() <= i < text.len() ==> dropped.contains(#[trigger] text[i])
        }),
    decreases text.len(),
{
    if text.len() > 0 && dropped.contains(text.last()) {
        let rest = text.drop_last();
        law_trailing_characters_are_dropped(rest, dropped);
        let kept = trim_end_any_spec(text, dropped);
        assert(kept =~= text.subrange(0, kept.len() as int));
        assert forall|i: int| kept.len() <= i < text.len() implies dropped.contains(
            #[trigger] text[i],
        ) by {
            if i < rest.len() {
                assert(rest[i] == text[i]);
            }
        }
    } else {
        assert(text.subrange(0, text.len() as int) =~= text);
    }
}

/// A number is read back from its digits, with or without a plus sign, where it is not
/// too large; a sign alone, a minus sign or a letter is no number.
pub proof fn law_numbers_are_read(digits: Seq<char>, max: nat, at: int)
    ensures
        digits.len() > 0 && all_digits(digits) && digits_value(digits) <= max ==> parsed_unsigned(
            digits,
            max,
        ) == Some(digits_value(digits)) && parsed_unsigned(seq!['+'] + digits, max) == Some(
            digits_value(digits),
        ),
        digits.len() > 0 && all_digits(digits) && digits_value(digits) > max ==> parsed_unsigned(
            digits,
            max,
        ) is None,
        0 < at < digits.len() && !is_digit(digits[at]) ==> parsed_unsigned(digits, max) is None,
        digits.len() > 0 && !is_digit(digits[0]) && digits[0] != '+' ==> parsed_unsigned(
            digits,
            max,
        ) is None,
        digits.len() == 0 ==> parsed_unsigned(digits, max) is None,
{
    let signed = seq!['+'] + digits;
    assert(signed.subrange(1, signed.len() as int) =~= digits);
    if digits.len() > 0 && all_digits(digits) {
        assert(is_digit(digits[0]));
    }
    if 0 < at < digits.len() && !is_digit(digits[at]) {
        if digits[0] == '+' {
            let rest = digits.subrange(1, digits.len() as int);
            assert(rest[at - 1] == digits[at]);
        }
    }
}

/// A further digit counts as it is, and those before it tenfold.
pub proof fn law_digits_count_tenfold(digits: Seq<char>, digit: char)
    requires
        is_digit(digit),
    ensures
        digits_value(Seq::empty()) == 0,
        digits_value(digits.push(digit)) == 10 * digits_value(digits) + (digit as int
            - '0' as int),
        is_digit('0') && is_digit('9') && !is_digit('a') && !is_digit('-'),
{
    assert(digits.push(digit).drop_last() =~= digits);
}

/// The first word is what stands between white space and white space.
pub proof fn law_first_word(before: Seq<char>, word: Seq<char>, after: Seq<char>)
    requires
        forall|i: int| 0 <= i < before.len() ==> is_white_space(#[trigger] before[i]),
        word.len() > 0,
        forall|i: int| 0 <= i < word.len() ==> !is_white_space(#[trigger] word[i]),
        after.len() > 0 ==> is_white_space(after[0]),
    ensures
        first_word(before + word + after) == Some(word),
    decreases before.len(),
{
    let whole = before + word + after;
    if before.len() == 0 {
        assert(whole =~= word + after);
        assert(whole.first() == word[0]);
        lemma_word_len(word, after);
        assert((word + after).subrange(0, word.len() as int) =~= word);
    } else {
        let less = before.drop_first();
        assert(is_white_space(before[0]));
        assert(whole.first() == before[0]);
        assert(whole.drop_first() =~= less + word + after);
        assert forall|i: int| 0 <= i < less.len() implies is_white_space(#[trigger] less[i]) by {
            assert(is_white_space(before[i + 1]));
        }
        law_first_word(less, word, after);
    }
}

proof fn lemma_word_len(word: Seq<char>, after: Seq<char>)
    requires
        forall|i: int| 0 <= i < word.len() ==> !is_white_space(#[trigger] word[i]),
        after.len() > 0 ==> is_white_space(after[0]),
    ensures
        word_len(word + after) == word.len(),
    decreases word.len(),
{
    let whole = word + after;
    if word.len() == 0 {
        assert(whole =~= after);
    } else {
        assert(whole.first() == word[0]);
        assert(whole.drop_first() =~= word.drop_first() + after);
        assert forall|i: int| 0 <= i < word.drop_first().len() implies !is_white_space(
            #[trigger] word.drop_first()[i],
        ) by {
            assert(!is_white_space(word[i + 1]));
        }
        lemma_word_len(word.drop_first(), after);
    }
}

} // verus!
