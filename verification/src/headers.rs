//! HTTP header fields: which names and values are allowed, and the map that
//! holds the fields of a message.

use reqwest::header::{HeaderMap, HeaderName, HeaderValue};
use vstd::prelude::*;
use vstd::utf8::encode_utf8;

use crate::text::lower_ascii;

verus! {

/// A character that may stand in a header name.
pub open spec fn is_name_char(c: char) -> bool {
    ||| 'a' <= c <= 'z'
    ||| 'A' <= c <= 'Z'
    ||| '0' <= c <= '9'
    ||| c == '!' || c == '#' || c == '$' || c == '%' || c == '&' || c == '\'' || c == '*'
    ||| c == '+' || c == '-' || c == '.' || c == '^' || c == '_' || c == '`' || c == '|'
    ||| c == '~'
}

pub open spec fn is_header_name(name: Seq<char>) -> bool {
    &&& 1 <= name.len() <= 65535
    &&& forall|i: int| 0 <= i < name.len() ==> is_name_char(#[trigger] name[i])
}

/// A character that may stand in a header value: no control character but the
/// tab.
pub open spec fn is_value_char(c: char) -> bool {
    c == '\t' || (c as u32 >= 32 && c as u32 != 127)
}

pub open spec fn is_header_value(value: Seq<char>) -> bool {
    forall|i: int| 0 <= i < value.len() ==> is_value_char(#[trigger] value[i])
}

/// A byte that can be read as visible ASCII text; the tab counts.
pub open spec fn is_visible_byte(byte: u8) -> bool {
    byte == 9 || 32 <= byte < 127
}

/// The text of a value whose bytes are all visible ASCII.
pub open spec fn visible_text(bytes: Seq<u8>) -> Option<Seq<char>> {
    if forall|i: int| 0 <= i < bytes.len() ==> is_visible_byte(#[trigger] bytes[i]) {
        Some(bytes.map_values(|byte: u8| byte as char))
    } else {
        None
    }
}

/// The header fields of a message.
#[verifier::external_type_specification]
#[verifier::external_body]
#[verifier::reject_recursive_types(T)]
pub struct ExHeaderMap<T>(HeaderMap<T>);

/// The value of one header field.
#[verifier::external_type_specification]
#[verifier::external_body]
pub struct ExHeaderValue(HeaderValue);

/// What a header map holds: under each name in small letters its values in
/// order, each with the mark of a secret.
pub uninterp spec fn header_entries(map: HeaderMap<HeaderValue>) -> Map<
    Seq<char>,
    Seq<(Seq<u8>, bool)>,
>;

pub open spec fn no_entries() -> Map<Seq<char>, Seq<(Seq<u8>, bool)>> {
    Map::empty()
}

/// With this many names a header map still takes another one, whatever their
/// hashes: a fifth of the largest table it can have.
pub const HEADER_MAP_ROOM: usize = 6553;

/// The bytes of the first value under a name.
pub open spec fn first_value(map: HeaderMap<HeaderValue>, name: Seq<char>) -> Option<Seq<u8>> {
    let key = lower_ascii(name);
    if header_entries(map).dom().contains(key) && header_entries(map)[key].len() > 0 {
        Some(header_entries(map)[key][0].0)
    } else {
        None
    }
}

/// The text of the first value under a name, where it is visible ASCII.
pub open spec fn first_text(map: HeaderMap<HeaderValue>, name: Seq<char>) -> Option<Seq<char>> {
    match first_value(map, name) {
        Some(bytes) => visible_text(bytes),
        None => None,
    }
}

pub const INVALID_NAME_REASON: &'static str = "invalid HTTP header name";

pub const INVALID_VALUE_REASON: &'static str = "failed to parse header value";

/// `HeaderName::from_bytes` takes one to 65535 token characters and makes its
/// capitals small; anything else it refuses with the same words.
#[verifier::external_body]
pub(crate) fn normal_header_name(name: &str) -> (normal: Result<String, String>)
    ensures
        match normal {
            Ok(normal) => is_header_name(name@) && normal@ == lower_ascii(name@),
            Err(reason) => !is_header_name(name@) && reason@ == INVALID_NAME_REASON@,
        },
{
    match HeaderName::from_bytes(name.as_bytes()) {
        Ok(name) => Ok(name.as_str().to_owned()),
        Err(error) => Err(error.to_string()),
    }
}

/// `HeaderValue::from_str` refuses control characters other than the tab, always
/// with the same words, and nothing else.
#[verifier::external_body]
pub(crate) fn check_header_value(value: &str) -> (checked: Result<(), String>)
    ensures
        match checked {
            Ok(_) => is_header_value(value@),
            Err(reason) => !is_header_value(value@) && reason@ == INVALID_VALUE_REASON@,
        },
{
    HeaderValue::from_str(value).map(|_| ()).map_err(|error| error.to_string())
}

/// `HeaderMap::new` makes a map without fields.
#[verifier::external_body]
pub(crate) fn new_header_map() -> (map: HeaderMap<HeaderValue>)
    ensures
        header_entries(map) == no_entries(),
{
    HeaderMap::new()
}

/// `HeaderMap::insert`, of a name and a value made from text: the value, with
/// its mark, takes the place of all values that the name had, whatever the
/// capitals. It panics where the map is full, so there has to be room.
#[verifier::external_body]
pub(crate) fn insert_header(
    map: &mut HeaderMap<HeaderValue>,
    name: &str,
    value: &str,
    sensitive: bool,
)
    requires
        is_header_name(name@),
        is_header_value(value@),
        header_entries(*old(map)).dom().finite(),
        header_entries(*old(map)).dom().len() <= HEADER_MAP_ROOM,
    ensures
        header_entries(*final(map)) == header_entries(*old(map)).insert(
            lower_ascii(name@),
            seq![(encode_utf8(value@), sensitive)],
        ),
{
    let name = HeaderName::from_bytes(name.as_bytes());
    let value = HeaderValue::from_str(value);
    if let (Ok(name), Ok(mut value)) = (name, value) {
        value.set_sensitive(sensitive);
        map.insert(name, value);
    }
}

/// `HeaderMap::get` finds the first value under a name, whatever the capitals,
/// and `HeaderValue::to_str` reads it where it is visible ASCII. Nothing is ever
/// found under a text that is no header name.
#[verifier::external_body]
pub(crate) fn header_text(map: &HeaderMap<HeaderValue>, name: &str) -> (text: Option<String>)
    ensures
        match text {
            Some(text) => first_text(*map, name@) == Some(text@),
            None => first_text(*map, name@) is None,
        },
{
    map.get(name).and_then(|value| value.to_str().ok()).map(|text| text.to_owned())
}

/// A name is found whatever its case.
pub proof fn law_names_are_found_in_any_case(map: HeaderMap<HeaderValue>, name: Seq<char>)
    ensures
        first_value(map, name) == first_value(map, lower_ascii(name)),
        first_text(map, name) == first_text(map, lower_ascii(name)),
{
    lemma_lowered_once(name);
}

proof fn lemma_lowered_once(name: Seq<char>)
    ensures
        lower_ascii(lower_ascii(name)) == lower_ascii(name),
{
    assert(lower_ascii(lower_ascii(name)) =~= lower_ascii(name));
}

/// Of the values under a name the first is read, and only where all its bytes are
/// visible ASCII, blanks or tabs.
pub proof fn law_first_visible_value_is_read(
    map: HeaderMap<HeaderValue>,
    name: Seq<char>,
    values: Seq<(Seq<u8>, bool)>,
)
    requires
        header_entries(map).dom().contains(lower_ascii(name)),
        header_entries(map)[lower_ascii(name)] == values,
        values.len() > 0,
    ensures
        first_value(map, name) == Some(values[0].0),
        first_text(map, name) is Some <==> forall|i: int|
            0 <= i < values[0].0.len() ==> (#[trigger] values[0].0[i] == 9 || 32 <= values[0].0[i]
                <= 126),
        first_text(map, name) is Some ==> first_text(map, name)->0.len() == values[0].0.len()
            && forall|i: int|
            0 <= i < values[0].0.len() ==> first_text(map, name)->0[i] as u32
                == #[trigger] values[0].0[i],
{
    let bytes = values[0].0;
    assert(forall|i: int|
        0 <= i < bytes.len() ==> is_visible_byte(#[trigger] bytes[i]) == (bytes[i] == 9 || 32
            <= bytes[i] <= 126));
}

/// What a name and a value may hold: a name letters, digits and some marks, and at least
/// one of them; a value anything but control characters, tabs apart.
pub proof fn law_characters_of_headers(name: Seq<char>, value: Seq<char>, i: int)
    ensures
        name.len() == 0 ==> !is_header_name(name),
        is_header_name(name) && 0 <= i < name.len() ==> 33 <= name[i] as u32 && (name[i] as u32)
            < 127 && name[i] != ':' && name[i] != ' ' && name[i] != '"' && name[i] != '('
            && name[i] != ')' && name[i] != ',' && name[i] != '/' && name[i] != ';' && name[i]
            != '=' && name[i] != '@',
        is_header_value(value) && 0 <= i < value.len() ==> value[i] != '\n' && value[i] != '\r'
            && value[i] as u32 != 127 && (value[i] as u32 >= 32 || value[i] == '\t'),
        (forall|k: int|
            0 <= k < value.len() ==> (#[trigger] value[k] as u32) >= 32 && value[k] as u32 != 127)
            ==> is_header_value(value),
{
    if is_header_name(name) && 0 <= i < name.len() {
        assert(is_name_char(name[i]));
    }
    if is_header_value(value) && 0 <= i < value.len() {
        assert(is_value_char(value[i]));
    }
}

/// Letters, digits and these marks can stand in a name, alone too.
pub proof fn law_names_of_headers(c: char)
    requires
        ('a' <= c <= 'z') || ('A' <= c <= 'Z') || ('0' <= c <= '9') || c == '-' || c == '_' || c
            == '.' || c == '!' || c == '#' || c == '$' || c == '%' || c == '&' || c == '*' || c
            == '+' || c == '^' || c == '`' || c == '|' || c == '~' || c == '\'',
    ensures
        is_header_name(seq![c]),
{
    assert(seq![c][0] == c);
    assert(is_name_char(c));
}

/// A name is one where each of its parts is.
pub proof fn law_names_are_joined(first: Seq<char>, second: Seq<char>)
    requires
        is_header_name(first),
        is_header_name(second),
        first.len() + second.len() <= 65_535,
    ensures
        is_header_name(first + second),
{
    let both = first + second;
    assert forall|i: int| 0 <= i < both.len() implies is_name_char(#[trigger] both[i]) by {
        if i < first.len() {
            assert(is_name_char(first[i]));
        } else {
            assert(is_name_char(second[i - first.len()]));
        }
    }
}

} // verus!
