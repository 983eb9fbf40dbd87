//! The head of a raw HTTP message: where it ends and how long the body is.

use vstd::prelude::*;
use vstd::slice::slice_subrange;

use crate::text::{
    cut, from_utf8_lossy, lossy_text, lower_ascii, parse_unsigned, parsed_unsigned, same_text,
    split_once, to_ascii_lowercase, trim, trimmed,
};

verus! {

/// An empty line begins at `at`.
pub open spec fn head_ends_at(bytes: Seq<u8>, at: int) -> bool {
    &&& 0 <= at
    &&& at + 4 <= bytes.len()
    &&& bytes[at] == 13 && bytes[at + 1] == 10 && bytes[at + 2] == 13 && bytes[at + 3] == 10
}

/// Where the empty line begins that ends the head, if it has come.
pub fn find_headers_end(bytes: &[u8]) -> (end: Option<usize>)
    ensures
        match end {
            Some(end) => head_ends_at(bytes@, end as int) && forall|i: int|
                0 <= i < end ==> !#[trigger] head_ends_at(bytes@, i),
            None => forall|i: int| !#[trigger] head_ends_at(bytes@, i),
        },
{
    if bytes.len() < 4 {
        return None;
    }
    let mut at: usize = 0;
    while at <= bytes.len() - 4
        invariant
            4 <= bytes@.len(),
            at <= bytes@.len() - 3,
            forall|i: int| 0 <= i < at ==> !#[trigger] head_ends_at(bytes@, i),
        decreases bytes@.len() - at,
    {
        if bytes[at] == 13 && bytes[at + 1] == 10 && bytes[at + 2] == 13 && bytes[at + 3] == 10 {
            return Some(at);
        }
        at += 1;
    }
    None
}

/// The length that a header line gives.
pub open spec fn line_length(line: Seq<char>) -> Option<nat> {
    match cut(line, ':') {
        Some((name, value)) => if lower_ascii(trimmed(name)) == "content-length"@ {
            parsed_unsigned(trimmed(value), usize::MAX as nat)
        } else {
            None
        },
        None => None,
    }
}

/// The length that the first line gives that gives one.
pub open spec fn length_in(text: Seq<char>) -> Option<nat>
    decreases text.len(),
{
    proof {
        text.index_of_first_ensures('\n');
    }
    match cut(text, '\n') {
        Some((line, rest)) => match line_length(line) {
            Some(length) => Some(length),
            None => length_in(rest),
        },
        None => line_length(text),
    }
}

fn read_line_length(line: &str) -> (length: Option<usize>)
    ensures
        match length {
            Some(length) => line_length(line@) == Some(length as nat),
            None => line_length(line@) is None,
        },
{
    match split_once(line, ':') {
        Some((name, value)) => if same_text(&to_ascii_lowercase(&trim(&name)), "content-length") {
            match parse_unsigned(&trim(&value), usize::MAX as u64) {
                Some(length) => Some(length as usize),
                None => None,
            }
        } else {
            None
        },
        None => None,
    }
}

/// The length of the body, given the text of the head.
pub fn content_length_in(text: &str) -> (length: Option<usize>)
    ensures
        match length {
            Some(length) => length_in(text@) == Some(length as nat),
            None => length_in(text@) is None,
        },
{
    let mut rest = text.to_owned();
    loop
        invariant
            length_in(text@) == length_in(rest@),
        decreases rest@.len(),
    {
        proof {
            rest@.index_of_first_ensures('\n');
        }
        match split_once(&rest, '\n') {
            Some((line, after)) => {
                let length = read_line_length(&line);
                if length.is_some() {
                    return length;
                }
                rest = after;
            },
            None => {
                return read_line_length(&rest);
            },
        }
    }
}

/// The length of the body, as the head of the message gives it.
pub fn content_length(headers: &[u8]) -> (length: Option<usize>)
    ensures
        match length {
            Some(length) => length_in(lossy_text(headers@)) == Some(length as nat),
            None => length_in(lossy_text(headers@)) is None,
        },
{
    content_length_in(&from_utf8_lossy(headers))
}

/// The head ends at `end` and nowhere before.
pub open spec fn is_head_end(bytes: Seq<u8>, end: int) -> bool {
    head_ends_at(bytes, end) && forall|i: int| 0 <= i < end ==> !#[trigger] head_ends_at(bytes, i)
}

/// How long a body the head promises.
pub open spec fn promised_length(bytes: Seq<u8>, end: int) -> nat {
    match length_in(lossy_text(bytes.subrange(0, end))) {
        Some(length) => length,
        None => 0,
    }
}

/// Whether a message has come as a whole: its head, and as much of a body as
/// the head promises.
pub fn is_complete(bytes: &[u8]) -> (complete: bool)
    ensures
        complete == exists|end: int| #[trigger]
            is_head_end(bytes@, end) && bytes@.len() >= end + 4 + promised_length(bytes@, end),
{
    match find_headers_end(bytes) {
        Some(end) => {
            let length: usize = match content_length(slice_subrange(bytes, 0, end)) {
                Some(length) => length,
                None => 0,
            };
            assert(is_head_end(bytes@, end as int));
            assert forall|other: int| is_head_end(bytes@, other) implies other == end by {
                assert(head_ends_at(bytes@, other));
                assert(head_ends_at(bytes@, end as int));
            }
            bytes.len() - end - 4 >= length
        },
        None => {
            assert forall|end: int| !is_head_end(bytes@, end) by {
                assert(!head_ends_at(bytes@, end));
            }
            false
        },
    }
}

/// The head of a message ends at its first empty line.
pub proof fn law_head_ends_at_the_first_empty_line(head: Seq<u8>, body: Seq<u8>, whole: Seq<u8>)
    requires
        whole == head + seq![13u8, 10u8, 13u8, 10u8] + body,
        forall|i: int|
            0 <= i < head.len() ==> !(#[trigger] whole[i] == 13 && whole[i + 1] == 10 && whole[i
                + 2] == 13 && whole[i + 3] == 10),
    ensures
        is_head_end(whole, head.len() as int),
{
    let at = head.len() as int;
    assert(whole[at] == 13 && whole[at + 1] == 10 && whole[at + 2] == 13 && whole[at + 3] == 10);
}

/// A line gives the length behind its name, whatever the case of that and the white space
/// round both; other lines give none.
pub proof fn law_length_is_read_from_its_line(name: Seq<char>, value: Seq<char>)
    requires
        !name.contains(':'),
    ensures
        lower_ascii(trimmed(name)) == "content-length"@ ==> line_length(
            name.push(':') + value,
        ) == parsed_unsigned(trimmed(value), usize::MAX as nat),
        lower_ascii(trimmed(name)) != "content-length"@ ==> line_length(name.push(':') + value)
            is None,
        line_length(name) is None,
{
    crate::text::law_text_is_cut_at_the_first(name, ':', value);
    name.index_of_first_ensures(':');
}

/// The first line that gives a length counts.
pub proof fn law_first_length_counts(line: Seq<char>, rest: Seq<char>)
    requires
        !line.contains('\n'),
    ensures
        line_length(line) is Some ==> length_in(line.push('\n') + rest) == line_length(line),
        line_length(line) is None ==> length_in(line.push('\n') + rest) == length_in(rest),
        length_in(line) == line_length(line),
{
    crate::text::law_text_is_cut_at_the_first(line, '\n', rest);
    line.index_of_first_ensures('\n');
}

/// A head that gives no length promises none.
pub proof fn law_promised_length_is_that_of_the_head(bytes: Seq<u8>, end: int)
    ensures
        ({
            let given = length_in(lossy_text(bytes.subrange(0, end)));
            &&& given is Some ==> promised_length(bytes, end) == given->0
            &&& given is None ==> promised_length(bytes, end) == 0
        }),
{
}

} // verus!
