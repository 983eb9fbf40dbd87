//! JSON values as plain data, with lookups stated over their views.

use serde_json::Value;
use vstd::prelude::*;

use crate::text::same_text;

verus! {

/// A JSON number. Integers are kept as integers; any other number is kept as
/// the decimal text that stands for it.
#[derive(Debug)]
pub enum JsonNumber {
    Unsigned(u64),
    Negative(i64),
    Float(String),
}

/// A JSON value. An object keeps its members in the order they were added.
#[derive(Debug)]
pub enum Json {
    Null,
    Bool(bool),
    Number(JsonNumber),
    Text(String),
    Array(Vec<Json>),
    Object(Vec<JsonField>),
}

/// One member of a JSON object.
#[derive(Debug)]
pub struct JsonField {
    pub key: String,
    pub value: Json,
}

pub ghost enum NumberView {
    Unsigned(u64),
    Negative(i64),
    Float(Seq<char>),
}

pub ghost enum JsonView {
    Null,
    Bool(bool),
    Number(NumberView),
    Text(Seq<char>),
    Array(Seq<JsonView>),
    Object(Seq<(Seq<char>, JsonView)>),
}

impl JsonNumber {
    pub open spec fn view(&self) -> NumberView {
        match self {
            JsonNumber::Unsigned(n) => NumberView::Unsigned(*n),
            JsonNumber::Negative(n) => NumberView::Negative(*n),
            JsonNumber::Float(text) => NumberView::Float(text@),
        }
    }

    pub fn duplicate(&self) -> (number: JsonNumber)
        ensures
            number@ == self@,
    {
        match self {
            JsonNumber::Unsigned(n) => JsonNumber::Unsigned(*n),
            JsonNumber::Negative(n) => JsonNumber::Negative(*n),
            JsonNumber::Float(text) => JsonNumber::Float(text.clone()),
        }
    }
}

impl Json {
    pub open spec fn view(&self) -> JsonView
        decreases self,
    {
        match self {
            Json::Null => JsonView::Null,
            Json::Bool(b) => JsonView::Bool(*b),
            Json::Number(n) => JsonView::Number(n@),
            Json::Text(s) => JsonView::Text(s@),
            Json::Array(items) => JsonView::Array(items_view(items@)),
            Json::Object(fields) => JsonView::Object(fields_view(fields@)),
        }
    }
}

pub open spec fn items_view(items: Seq<Json>) -> Seq<JsonView>
    decreases items,
{
    Seq::new(
        items.len(),
        |i: int|
            if 0 <= i < items.len() {
                items[i].view()
            } else {
                arbitrary()
            },
    )
}

pub open spec fn fields_view(fields: Seq<JsonField>) -> Seq<(Seq<char>, JsonView)>
    decreases fields,
{
    Seq::new(
        fields.len(),
        |i: int|
            if 0 <= i < fields.len() {
                (fields[i].key@, fields[i].value.view())
            } else {
                arbitrary()
            },
    )
}

/// The value of the first member named `key`.
pub open spec fn field_value(fields: Seq<(Seq<char>, JsonView)>, key: Seq<char>) -> Option<JsonView>
    decreases fields.len(),
{
    if fields.len() == 0 {
        None
    } else if fields[0].0 == key {
        Some(fields[0].1)
    } else {
        field_value(fields.drop_first(), key)
    }
}

/// The members with `key` standing for `value`: an existing member is replaced
/// in place, a new one goes to the end.
pub open spec fn with_field(
    fields: Seq<(Seq<char>, JsonView)>,
    key: Seq<char>,
    value: JsonView,
) -> Seq<(Seq<char>, JsonView)>
    decreases fields.len(),
{
    if fields.len() == 0 {
        seq![(key, value)]
    } else if fields[0].0 == key {
        fields.update(0, (key, value))
    } else {
        seq![fields[0]] + with_field(fields.drop_first(), key, value)
    }
}

impl JsonView {
    /// The member named `key` of an object.
    pub open spec fn get(self, key: Seq<char>) -> Option<JsonView> {
        match self {
            JsonView::Object(fields) => field_value(fields, key),
            _ => None,
        }
    }

    /// The member named `inner` of the member named `outer`.
    pub open spec fn get_in(self, outer: Seq<char>, inner: Seq<char>) -> Option<JsonView> {
        match self.get(outer) {
            Some(value) => value.get(inner),
            None => None,
        }
    }

    /// The text of the member named `inner` of the member named `outer`.
    pub open spec fn get_in_str(self, outer: Seq<char>, inner: Seq<char>) -> Option<Seq<char>> {
        match self.get_in(outer, inner) {
            Some(value) => value.as_str(),
            None => None,
        }
    }

    pub open spec fn as_str(self) -> Option<Seq<char>> {
        match self {
            JsonView::Text(text) => Some(text),
            _ => None,
        }
    }

    pub open spec fn as_array(self) -> Option<Seq<JsonView>> {
        match self {
            JsonView::Array(items) => Some(items),
            _ => None,
        }
    }

    pub open spec fn as_u64(self) -> Option<u64> {
        match self {
            JsonView::Number(NumberView::Unsigned(n)) => Some(n),
            _ => None,
        }
    }

    pub open spec fn as_i64(self) -> Option<i64> {
        match self {
            JsonView::Number(NumberView::Unsigned(n)) => if n <= i64::MAX {
                Some(n as i64)
            } else {
                None
            },
            JsonView::Number(NumberView::Negative(n)) => Some(n),
            _ => None,
        }
    }

    pub open spec fn get_str(self, key: Seq<char>) -> Option<Seq<char>> {
        match self.get(key) {
            Some(value) => value.as_str(),
            None => None,
        }
    }

    pub open spec fn get_array(self, key: Seq<char>) -> Option<Seq<JsonView>> {
        match self.get(key) {
            Some(value) => value.as_array(),
            None => None,
        }
    }

    pub open spec fn get_u64(self, key: Seq<char>) -> Option<u64> {
        match self.get(key) {
            Some(value) => value.as_u64(),
            None => None,
        }
    }
}

/// An optional borrowed text as an optional character sequence.
pub open spec fn str_view(text: Option<&str>) -> Option<Seq<char>> {
    match text {
        Some(text) => Some(text@),
        None => None,
    }
}

pub open spec fn string_view(text: Option<String>) -> Option<Seq<char>> {
    match text {
        Some(text) => Some(text@),
        None => None,
    }
}

pub open spec fn json_view(value: Option<&Json>) -> Option<JsonView> {
    match value {
        Some(value) => Some(value@),
        None => None,
    }
}

impl Json {
    pub fn get(&self, key: &str) -> (value: Option<&Json>)
        ensures
            json_view(value) == self@.get(key@),
    {
        match self {
            Json::Object(fields) => {
                let mut i: usize = 0;
                assert(fields_view(fields@).subrange(0, fields.len() as int) == fields_view(
                    fields@,
                ));
                while i < fields.len()
                    invariant
                        *self == Json::Object(*fields),
                        i <= fields.len(),
                        field_value(fields_view(fields@), key@) == field_value(
                            fields_view(fields@).subrange(i as int, fields.len() as int),
                            key@,
                        ),
                    decreases fields.len() - i,
                {
                    let ghost rest = fields_view(fields@).subrange(i as int, fields.len() as int);
                    assert(rest[0] == fields_view(fields@)[i as int]);
                    if same_text(&fields[i].key, key) {
                        return Some(&fields[i].value);
                    }
                    assert(rest.drop_first() == fields_view(fields@).subrange(
                        i + 1,
                        fields.len() as int,
                    ));
                    i += 1;
                }
                None
            },
            _ => None,
        }
    }

    pub fn get_in(&self, outer: &str, inner: &str) -> (value: Option<&Json>)
        ensures
            json_view(value) == self@.get_in(outer@, inner@),
    {
        match self.get(outer) {
            Some(value) => value.get(inner),
            None => None,
        }
    }

    pub fn get_in_str(&self, outer: &str, inner: &str) -> (text: Option<&str>)
        ensures
            str_view(text) == self@.get_in_str(outer@, inner@),
    {
        match self.get_in(outer, inner) {
            Some(value) => value.as_str(),
            None => None,
        }
    }

    pub fn as_str(&self) -> (text: Option<&str>)
        ensures
            str_view(text) == self@.as_str(),
    {
        match self {
            Json::Text(text) => Some(text.as_str()),
            _ => None,
        }
    }

    pub fn as_array(&self) -> (items: Option<&Vec<Json>>)
        ensures
            match items {
                Some(items) => self@.as_array() == Some(items_view(items@)),
                None => self@.as_array() is None,
            },
    {
        match self {
            Json::Array(items) => Some(items),
            _ => None,
        }
    }

    pub fn as_u64(&self) -> (number: Option<u64>)
        ensures
            number == self@.as_u64(),
    {
        match self {
            Json::Number(JsonNumber::Unsigned(n)) => Some(*n),
            _ => None,
        }
    }

    pub fn as_i64(&self) -> (number: Option<i64>)
        ensures
            number == self@.as_i64(),
    {
        match self {
            Json::Number(JsonNumber::Unsigned(n)) => if *n <= i64::MAX as u64 {
                Some(*n as i64)
            } else {
                None
            },
            Json::Number(JsonNumber::Negative(n)) => Some(*n),
            _ => None,
        }
    }

    pub fn get_str(&self, key: &str) -> (text: Option<&str>)
        ensures
            str_view(text) == self@.get_str(key@),
    {
        match self.get(key) {
            Some(value) => value.as_str(),
            None => None,
        }
    }

    pub fn get_array(&self, key: &str) -> (items: Option<&Vec<Json>>)
        ensures
            match items {
                Some(items) => self@.get_array(key@) == Some(items_view(items@)),
                None => self@.get_array(key@) is None,
            },
    {
        match self.get(key) {
            Some(value) => value.as_array(),
            None => None,
        }
    }

    pub fn get_u64(&self, key: &str) -> (number: Option<u64>)
        ensures
            number == self@.get_u64(key@),
    {
        match self.get(key) {
            Some(value) => value.as_u64(),
            None => None,
        }
    }

    /// A deep copy.
    pub fn duplicate(&self) -> (copy: Json)
        ensures
            copy@ == self@,
        decreases self,
    {
        match self {
            Json::Null => Json::Null,
            Json::Bool(b) => Json::Bool(*b),
            Json::Number(n) => Json::Number(n.duplicate()),
            Json::Text(s) => Json::Text(s.clone()),
            Json::Array(items) => {
                let mut copies: Vec<Json> = Vec::new();
                let mut i: usize = 0;
                while i < items.len()
                    invariant
                        *self == Json::Array(*items),
                        i <= items.len(),
                        copies.len() == i,
                        forall|k: int| 0 <= k < i ==> (#[trigger] copies[k])@ == items[k]@,
                    decreases items.len() - i,
                {
                    assert(decreases_to!(*self => self->Array_0));
                    assert(decreases_to!(items@ => items@[i as int]));
                    copies.push(items[i].duplicate());
                    i += 1;
                }
                assert(items_view(copies@) =~= items_view(items@));
                Json::Array(copies)
            },
            Json::Object(fields) => {
                let mut copies: Vec<JsonField> = Vec::new();
                let mut i: usize = 0;
                while i < fields.len()
                    invariant
                        *self == Json::Object(*fields),
                        i <= fields.len(),
                        copies.len() == i,
                        forall|k: int|
                            0 <= k < i ==> (#[trigger] copies[k]).key@ == fields[k].key@
                                && copies[k].value@ == fields[k].value@,
                    decreases fields.len() - i,
                {
                    assert(decreases_to!(*self => self->Object_0));
                    assert(decreases_to!(fields@ => fields@[i as int]));
                    copies.push(
                        JsonField {
                            key: fields[i].key.clone(),
                            value: fields[i].value.duplicate(),
                        },
                    );
                    i += 1;
                }
                assert(fields_view(copies@) =~= fields_view(fields@));
                Json::Object(copies)
            },
        }
    }
}

/// Appends a member.
pub fn push_field(fields: &mut Vec<JsonField>, key: &str, value: Json)
    ensures
        fields_view(final(fields)@) == fields_view(old(fields)@).push((key@, value@)),
{
    fields.push(JsonField { key: key.to_owned(), value });
    assert(fields_view(fields@) =~= fields_view(old(fields)@).push((key@, value@)));
}

/// Appends an element.
pub fn push_item(items: &mut Vec<Json>, value: Json)
    ensures
        items_view(final(items)@) == items_view(old(items)@).push(value@),
{
    items.push(value);
    assert(items_view(items@) =~= items_view(old(items)@).push(value@));
}

pub fn text_json(text: &str) -> (value: Json)
    ensures
        value@ == JsonView::Text(text@),
{
    Json::Text(text.to_owned())
}

pub fn unsigned_json(number: u64) -> (value: Json)
    ensures
        value@ == JsonView::Number(NumberView::Unsigned(number)),
{
    Json::Number(JsonNumber::Unsigned(number))
}

/// An object with one member.
pub fn object1(key: &str, value: Json) -> (object: Json)
    ensures
        object@ == JsonView::Object(seq![(key@, value@)]),
{
    let mut fields: Vec<JsonField> = Vec::new();
    push_field(&mut fields, key, value);
    assert(fields_view(fields@) =~= seq![(key@, value@)]);
    Json::Object(fields)
}

/// An object with two members.
pub fn object2(key0: &str, value0: Json, key1: &str, value1: Json) -> (object: Json)
    ensures
        object@ == JsonView::Object(seq![(key0@, value0@), (key1@, value1@)]),
{
    let mut fields: Vec<JsonField> = Vec::new();
    push_field(&mut fields, key0, value0);
    push_field(&mut fields, key1, value1);
    assert(fields_view(fields@) =~= seq![(key0@, value0@), (key1@, value1@)]);
    Json::Object(fields)
}

/// An object with three members.
pub fn object3(
    key0: &str,
    value0: Json,
    key1: &str,
    value1: Json,
    key2: &str,
    value2: Json,
) -> (object: Json)
    ensures
        object@ == JsonView::Object(seq![(key0@, value0@), (key1@, value1@), (key2@, value2@)]),
{
    let mut fields: Vec<JsonField> = Vec::new();
    push_field(&mut fields, key0, value0);
    push_field(&mut fields, key1, value1);
    push_field(&mut fields, key2, value2);
    assert(fields_view(fields@) =~= seq![(key0@, value0@), (key1@, value1@), (key2@, value2@)]);
    Json::Object(fields)
}

/// An object with four members.
pub fn object4(
    key0: &str,
    value0: Json,
    key1: &str,
    value1: Json,
    key2: &str,
    value2: Json,
    key3: &str,
    value3: Json,
) -> (object: Json)
    ensures
        object@ == JsonView::Object(
            seq![(key0@, value0@), (key1@, value1@), (key2@, value2@), (key3@, value3@)],
        ),
{
    let mut fields: Vec<JsonField> = Vec::new();
    push_field(&mut fields, key0, value0);
    push_field(&mut fields, key1, value1);
    push_field(&mut fields, key2, value2);
    push_field(&mut fields, key3, value3);
    assert(fields_view(fields@) =~= seq![
        (key0@, value0@),
        (key1@, value1@),
        (key2@, value2@),
        (key3@, value3@),
    ]);
    Json::Object(fields)
}

/// Sets the member named `key`.
pub fn set_field(fields: &mut Vec<JsonField>, key: &str, value: Json)
    ensures
        fields_view(final(fields)@) == with_field(fields_view(old(fields)@), key@, value@),
{
    let ghost before = fields_view(fields@);
    let mut i: usize = 0;
    assert(before.subrange(0, before.len() as int) == before);
    while i < fields.len()
        invariant
            *fields == *old(fields),
            before == fields_view(fields@),
            i <= fields.len(),
            with_field(before, key@, value@) == before.subrange(0, i as int) + with_field(
                before.subrange(i as int, before.len() as int),
                key@,
                value@,
            ),
        decreases fields.len() - i,
    {
        let ghost rest = before.subrange(i as int, before.len() as int);
        assert(rest[0] == before[i as int]);
        if same_text(&fields[i].key, key) {
            fields[i] = JsonField { key: key.to_owned(), value };
            assert(fields_view(fields@) =~= before.subrange(0, i as int) + rest.update(
                0,
                (key@, value@),
            ));
            return ;
        }
        assert(rest.drop_first() == before.subrange(i + 1, before.len() as int));
        assert(before.subrange(0, i + 1) =~= before.subrange(0, i as int) + seq![rest[0]]);
        i += 1;
    }
    push_field(fields, key, value);
    assert(fields_view(fields@) =~= before.subrange(0, i as int) + seq![(key@, value@)]);
}

/// The compact text of a JSON value.
pub uninterp spec fn json_text(value: JsonView) -> Seq<char>;

/// The JSON value that a text stands for, or what keeps it from being JSON.
pub uninterp spec fn json_read(text: Seq<char>) -> Result<JsonView, Seq<char>>;

/// The JSON value that a text stands for, if it is JSON.
pub open spec fn json_parsed(text: Seq<char>) -> Option<JsonView> {
    match json_read(text) {
        Ok(value) => Some(value),
        Err(_) => None,
    }
}

/// A JSON value of `serde_json`.
#[verifier::external_type_specification]
#[verifier::external_body]
pub struct ExSerdeValue(Value);

/// A value as `serde_json::Value`, member by member.
#[verifier::external_body]
fn outside_value(value: &Json) -> Value {
    match value {
        Json::Null => Value::Null,
        Json::Bool(flag) => Value::Bool(*flag),
        Json::Number(JsonNumber::Unsigned(number)) => Value::from(*number),
        Json::Number(JsonNumber::Negative(number)) => Value::from(*number),
        Json::Number(JsonNumber::Float(digits)) => serde_json::from_str(digits).unwrap_or_default(),
        Json::Text(text) => Value::String(text.clone()),
        Json::Array(items) => Value::Array(items.iter().map(outside_value).collect()),
        Json::Object(fields) => Value::Object(
            fields.iter().map(|field| (field.key.clone(), outside_value(&field.value))).collect(),
        ),
    }
}

/// A `serde_json::Value` as a value of this crate, member by member.
#[verifier::external_body]
pub(crate) fn own_value(value: Value) -> Json {
    match value {
        Value::Null => Json::Null,
        Value::Bool(flag) => Json::Bool(flag),
        Value::Number(number) => match (number.as_u64(), number.as_i64()) {
            (Some(number), _) => Json::Number(JsonNumber::Unsigned(number)),
            (None, Some(number)) => Json::Number(JsonNumber::Negative(number)),
            (None, None) => Json::Number(JsonNumber::Float(number.to_string())),
        },
        Value::String(text) => Json::Text(text),
        Value::Array(items) => Json::Array(items.into_iter().map(own_value).collect()),
        Value::Object(fields) => Json::Object(
            fields.into_iter().map(|(key, value)| JsonField { key, value: own_value(value) }).collect(),
        ),
    }
}

/// `serde_json::Value::to_string`: the text depends on the value alone.
#[verifier::external_body]
fn write_json(value: &Json) -> (text: String)
    ensures
        text@ == json_text(value@),
{
    outside_value(value).to_string()
}

/// `serde_json::from_str` into a `serde_json::Value`: whether a text is JSON,
/// what value it stands for, and what the error says otherwise, depends on the
/// text alone.
#[verifier::external_body]
fn read_json(text: &str) -> (value: Result<Json, String>)
    ensures
        match value {
            Ok(value) => json_read(text@) == Ok::<JsonView, Seq<char>>(value@),
            Err(error) => json_read(text@) == Err::<JsonView, Seq<char>>(error@),
        },
{
    serde_json::from_str(text).map(own_value).map_err(|error| error.to_string())
}

/// The JSON value that a byte string stands for, if it is JSON in UTF-8.
pub uninterp spec fn json_parsed_bytes(bytes: Seq<u8>) -> Option<JsonView>;

/// `serde_json::from_slice` into a `serde_json::Value`: whether the bytes are
/// JSON, and what value they stand for, depends on the bytes alone.
#[verifier::external_body]
fn read_json_bytes(bytes: &[u8]) -> (value: Option<Json>)
    ensures
        match value {
            Some(value) => json_parsed_bytes(bytes@) == Some(value@),
            None => json_parsed_bytes(bytes@) is None,
        },
{
    serde_json::from_slice(bytes).ok().map(own_value)
}

impl Json {
    /// The compact text of the value.
    pub fn to_text(&self) -> (text: String)
        ensures
            text@ == json_text(self@),
    {
        write_json(self)
    }

    /// The value that a text stands for, unless it is not JSON.
    pub fn parse(text: &str) -> (value: Option<Json>)
        ensures
            match value {
                Some(value) => json_parsed(text@) == Some(value@),
                None => json_parsed(text@) is None,
            },
    {
        match read_json(text) {
            Ok(value) => Some(value),
            Err(_) => None,
        }
    }

    /// The value that a text stands for, or what keeps it from being JSON.
    pub fn parse_or_reason(text: &str) -> (value: Result<Json, String>)
        ensures
            match value {
                Ok(value) => json_read(text@) == Ok::<JsonView, Seq<char>>(value@),
                Err(reason) => json_read(text@) == Err::<JsonView, Seq<char>>(reason@),
            },
    {
        read_json(text)
    }

    /// The value that bytes stand for, unless they are not JSON.
    pub fn parse_bytes(bytes: &[u8]) -> (value: Option<Json>)
        ensures
            match value {
                Some(value) => json_parsed_bytes(bytes@) == Some(value@),
                None => json_parsed_bytes(bytes@) is None,
            },
    {
        read_json_bytes(bytes)
    }
}

impl Clone for Json {
    fn clone(&self) -> (copy: Self)
        ensures
            copy@ == self@,
    {
        self.duplicate()
    }
}

/// The member, where there is a value for it.
pub open spec fn optional_field(key: Seq<char>, value: Option<JsonView>) -> Seq<
    (Seq<char>, JsonView),
> {
    match value {
        Some(value) => seq![(key, value)],
        None => Seq::empty(),
    }
}

pub open spec fn owned_view(value: Option<Json>) -> Option<JsonView> {
    match value {
        Some(value) => Some(value@),
        None => None,
    }
}

/// Appends a member where there is a value for it.
pub fn push_optional(fields: &mut Vec<JsonField>, key: &str, value: Option<Json>)
    ensures
        fields_view(final(fields)@) == fields_view(old(fields)@) + optional_field(
            key@,
            owned_view(value),
        ),
{
    match value {
        Some(value) => {
            push_field(fields, key, value);
            assert(fields_view(fields@) =~= fields_view(old(fields)@) + seq![(key@, value@)]);
        },
        None => {
            assert(fields_view(fields@) =~= fields_view(old(fields)@) + Seq::<
                (Seq<char>, JsonView),
            >::empty());
        },
    }
}

/// An array with one element.
pub fn array1(value: Json) -> (array: Json)
    ensures
        array@ == JsonView::Array(seq![value@]),
{
    let mut items: Vec<Json> = Vec::new();
    push_item(&mut items, value);
    assert(items_view(items@) =~= seq![value@]);
    Json::Array(items)
}

/// Appends copies of the elements.
pub fn push_copies(items: &mut Vec<Json>, more: &Vec<Json>)
    ensures
        items_view(final(items)@) == items_view(old(items)@) + items_view(more@),
{
    let mut i: usize = 0;
    while i < more.len()
        invariant
            i <= more.len(),
            items_view(items@) == items_view(old(items)@) + items_view(more@).subrange(0, i as int),
        decreases more.len() - i,
    {
        push_item(items, more[i].duplicate());
        assert(items_view(items@) =~= items_view(old(items)@) + items_view(more@).subrange(
            0,
            i + 1,
        ));
        i += 1;
    }
    assert(items_view(more@).subrange(0, i as int) =~= items_view(more@));
}

/// No member has that name.
pub open spec fn lacks(fields: Seq<(Seq<char>, JsonView)>, key: Seq<char>) -> bool {
    forall|i: int| 0 <= i < fields.len() ==> (#[trigger] fields[i]).0 != key
}

/// A member is read under its name, unless an earlier one has the same name.
pub proof fn law_first_member_is_read(fields: Seq<(Seq<char>, JsonView)>, at: int)
    requires
        0 <= at < fields.len(),
        lacks(fields.subrange(0, at), fields[at].0),
    ensures
        JsonView::Object(fields).get(fields[at].0) == Some(fields[at].1),
    decreases at,
{
    let key = fields[at].0;
    if at > 0 {
        assert(fields.subrange(0, at)[0] == fields[0]);
        let rest = fields.drop_first();
        assert(rest.subrange(0, at - 1) =~= fields.subrange(1, at));
        assert forall|i: int| 0 <= i < rest.subrange(0, at - 1).len() implies (
        #[trigger] rest.subrange(0, at - 1)[i]).0 != key by {
            assert(fields.subrange(0, at)[i + 1] == rest.subrange(0, at - 1)[i]);
        }
        law_first_member_is_read(rest, at - 1);
    }
}

/// The member at a place is read under its name, where none before it has that
/// name.
pub proof fn lemma_member(object: JsonView, at: int, key: Seq<char>)
    requires
        object is Object,
        0 <= at < object->Object_0.len(),
        object->Object_0[at].0 == key,
        forall|i: int| 0 <= i < at ==> (#[trigger] object->Object_0[i]).0 != key,
    ensures
        object.get(key) == Some(object->Object_0[at].1),
{
    let fields = object->Object_0;
    assert forall|i: int| 0 <= i < fields.subrange(0, at).len() implies (
    #[trigger] fields.subrange(0, at)[i]).0 != key by {
        assert(fields[i].0 != key);
    }
    law_first_member_is_read(fields, at);
}

/// Nothing is read under a name that no member has.
pub proof fn law_missing_member_is_not_read(fields: Seq<(Seq<char>, JsonView)>, key: Seq<char>)
    requires
        lacks(fields, key),
    ensures
        JsonView::Object(fields).get(key) is None,
    decreases fields.len(),
{
    if fields.len() > 0 {
        assert(fields[0].0 != key);
        assert forall|i: int| 0 <= i < fields.drop_first().len() implies (
        #[trigger] fields.drop_first()[i]).0 != key by {
            assert(fields[i + 1].0 != key);
        }
        law_missing_member_is_not_read(fields.drop_first(), key);
    }
}

/// Of two runs of members, the first that has the name is read.
pub proof fn lemma_fields_join(
    first: Seq<(Seq<char>, JsonView)>,
    second: Seq<(Seq<char>, JsonView)>,
    key: Seq<char>,
)
    ensures
        field_value(first + second, key) == match field_value(first, key) {
            Some(value) => Some(value),
            None => field_value(second, key),
        },
    decreases first.len(),
{
    if first.len() == 0 {
        assert(first + second =~= second);
    } else {
        assert((first + second)[0] == first[0]);
        assert((first + second).drop_first() =~= first.drop_first() + second);
        lemma_fields_join(first.drop_first(), second, key);
    }
}

/// Setting a member makes it read as set, and leaves all others as they are.
pub proof fn law_set_member_is_read(
    fields: Seq<(Seq<char>, JsonView)>,
    key: Seq<char>,
    value: JsonView,
    other: Seq<char>,
)
    ensures
        JsonView::Object(with_field(fields, key, value)).get(key) == Some(value),
        other != key ==> JsonView::Object(with_field(fields, key, value)).get(other)
            == JsonView::Object(fields).get(other),
    decreases fields.len(),
{
    let after = with_field(fields, key, value);
    if fields.len() == 0 {
        assert(after[0] == (key, value));
        assert(after.drop_first() =~= Seq::empty());
        assert(field_value(after.drop_first(), other) is None);
    } else if fields[0].0 == key {
        assert(after[0] == (key, value));
        assert(after.drop_first() =~= fields.drop_first());
    } else {
        law_set_member_is_read(fields.drop_first(), key, value, other);
        assert(after[0] == fields[0]);
        assert(after.drop_first() =~= with_field(fields.drop_first(), key, value));
    }
}

/// A member that may be missing is read exactly where there is a value for it.
pub proof fn law_optional_member_is_read(key: Seq<char>, value: Option<JsonView>, other: Seq<char>)
    ensures
        field_value(optional_field(key, value), key) == value,
        other != key ==> field_value(optional_field(key, value), other) is None,
{
    let fields = optional_field(key, value);
    if value is Some {
        assert(fields[0].0 == key);
        assert(fields.drop_first() =~= Seq::empty());
        assert(field_value(fields.drop_first(), other) is None);
    }
}

/// Numbers are read as what they are: a count is read only from a number without
/// a sign and a fraction, a text only from a text.
pub proof fn law_values_are_read_as_they_are(value: JsonView)
    ensures
        match value {
            JsonView::Text(text) => value.as_str() == Some(text),
            _ => value.as_str() is None,
        },
        match value {
            JsonView::Array(items) => value.as_array() == Some(items),
            _ => value.as_array() is None,
        },
        match value {
            JsonView::Number(NumberView::Unsigned(n)) => value.as_u64() == Some(n),
            _ => value.as_u64() is None,
        },
        match value {
            JsonView::Number(NumberView::Unsigned(n)) => match value.as_i64() {
                Some(read) => read == n,
                None => n > i64::MAX,
            },
            JsonView::Number(NumberView::Negative(n)) => value.as_i64() == Some(n),
            _ => value.as_i64() is None,
        },
{
}

} // verus!
