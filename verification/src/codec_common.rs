//! Pieces that the wire codecs share: text collection, tool names, tool
//! results and bounded identifiers.

use vstd::prelude::*;
use vstd::utf8::{decode_utf8, encode_utf8, is_char_boundary};

use crate::hash::{base64_encode, base64_text, hex_encode, hex_text, sha256, sha256_digest};
use crate::json::{json_text, object2, text_json, Json, JsonView};
use crate::protocol::{
    AssistantMessage, AssistantPart, MediaBytes, Message, ProviderKind, ProviderRequest, ToolAlias,
    ToolCallId, ToolError, ToolName, ToolResult, ToolSpec, UserMessage, UserPart,
};
use crate::text::{
    concat2, concat3, concat4, join, joined, same_text, to_chars, trim, trimmed, views,
};

verus! {

/// Most bytes that a provider-facing identifier may have.
pub const PROVIDER_ID_MAX_LEN: usize = 64;

/// The trimmed texts of the system messages that say anything.
pub open spec fn system_texts(messages: Seq<Message>) -> Seq<Seq<char>>
    decreases messages.len(),
{
    if messages.len() == 0 {
        Seq::empty()
    } else {
        let before = system_texts(messages.drop_last());
        match messages.last() {
            Message::System(system) if trimmed(system.text@).len() > 0 => before.push(
                trimmed(system.text@),
            ),
            _ => before,
        }
    }
}

/// The sections of the system text: the rendered prompt prefix, then the system
/// messages.
pub open spec fn system_sections(request: ProviderRequest) -> Seq<Seq<char>> {
    let prefix = trimmed(request.prompt.rendered_prefix@);
    if prefix.len() > 0 {
        seq![prefix] + system_texts(request.messages@)
    } else {
        system_texts(request.messages@)
    }
}

pub open spec fn system_text(request: ProviderRequest) -> Option<Seq<char>> {
    if system_sections(request).len() == 0 {
        None
    } else {
        Some(joined(system_sections(request), "\n\n"@))
    }
}

/// Appends the trimmed texts of the system messages that say anything.
pub fn push_system_texts(sections: &mut Vec<String>, messages: &Vec<Message>)
    ensures
        views(final(sections)@) == views(old(sections)@) + system_texts(messages@),
{
    let mut i: usize = 0;
    assert(messages@.subrange(0, 0) =~= Seq::empty());
    while i < messages.len()
        invariant
            i <= messages.len(),
            views(sections@) == views(old(sections)@) + system_texts(messages@.subrange(0, i as int)),
        decreases messages.len() - i,
    {
        assert(messages@.subrange(0, i + 1).drop_last() == messages@.subrange(0, i as int));
        if let Message::System(system) = &messages[i] {
            let text = trim(&system.text);
            if !text.as_str().is_empty() {
                let ghost before = views(sections@);
                sections.push(text);
                assert(views(sections@) =~= before.push(text@));
            }
        }
        i += 1;
    }
    assert(messages@.subrange(0, i as int) == messages@);
}

pub fn collect_system_text(request: &ProviderRequest) -> (text: Option<String>)
    ensures
        crate::json::string_view(text) == system_text(*request),
{
    let mut sections: Vec<String> = Vec::new();
    let rendered_prefix = trim(&request.prompt.rendered_prefix);
    if !rendered_prefix.as_str().is_empty() {
        sections.push(rendered_prefix);
    }
    push_system_texts(&mut sections, &request.messages);
    assert(views(sections@) =~= system_sections(*request));
    assert(views(sections@).len() == sections@.len());
    if sections.is_empty() {
        None
    } else {
        Some(join(&sections, "\n\n"))
    }
}

/// The assistant's texts that are not empty.
pub open spec fn assistant_texts(parts: Seq<AssistantPart>) -> Seq<Seq<char>>
    decreases parts.len(),
{
    if parts.len() == 0 {
        Seq::empty()
    } else {
        let before = assistant_texts(parts.drop_last());
        match parts.last() {
            AssistantPart::Text { text } if text@.len() > 0 => before.push(text@),
            _ => before,
        }
    }
}

pub fn assistant_text(message: &AssistantMessage) -> (text: String)
    ensures
        text@ == joined(assistant_texts(message.parts@), "\n"@),
{
    let mut texts: Vec<String> = Vec::new();
    let mut i: usize = 0;
    while i < message.parts.len()
        invariant
            i <= message.parts.len(),
            views(texts@) == assistant_texts(message.parts@.subrange(0, i as int)),
        decreases message.parts.len() - i,
    {
        assert(message.parts@.subrange(0, i + 1).drop_last() == message.parts@.subrange(
            0,
            i as int,
        ));
        if let AssistantPart::Text { text } = &message.parts[i] {
            if !text.as_str().is_empty() {
                let ghost before = views(texts@);
                texts.push(text.clone());
                assert(views(texts@) =~= before.push(text@));
            }
        }
        i += 1;
    }
    assert(message.parts@.subrange(0, i as int) == message.parts@);
    join(&texts, "\n")
}

/// Some part is not text.
pub open spec fn user_has_media(parts: Seq<UserPart>) -> bool {
    exists|i: int| 0 <= i < parts.len() && !(#[trigger] parts[i] is Text)
}

pub fn has_user_media(message: &UserMessage) -> (found: bool)
    ensures
        found == user_has_media(message.parts@),
{
    let mut i: usize = 0;
    while i < message.parts.len()
        invariant
            i <= message.parts.len(),
            forall|k: int| 0 <= k < i ==> #[trigger] message.parts[k] is Text,
        decreases message.parts.len() - i,
    {
        match &message.parts[i] {
            UserPart::Text { .. } => {},
            _ => {
                assert(!(message.parts@[i as int] is Text));
                return true;
            },
        }
        i += 1;
    }
    false
}

/// The user's texts that are not empty.
pub open spec fn user_texts(parts: Seq<UserPart>) -> Seq<Seq<char>>
    decreases parts.len(),
{
    if parts.len() == 0 {
        Seq::empty()
    } else {
        let before = user_texts(parts.drop_last());
        match parts.last() {
            UserPart::Text { text } if text@.len() > 0 => before.push(text@),
            _ => before,
        }
    }
}

pub fn user_text(message: &UserMessage) -> (text: String)
    ensures
        text@ == joined(user_texts(message.parts@), "\n"@),
{
    let mut texts: Vec<String> = Vec::new();
    let mut i: usize = 0;
    while i < message.parts.len()
        invariant
            i <= message.parts.len(),
            views(texts@) == user_texts(message.parts@.subrange(0, i as int)),
        decreases message.parts.len() - i,
    {
        assert(message.parts@.subrange(0, i + 1).drop_last() == message.parts@.subrange(
            0,
            i as int,
        ));
        if let UserPart::Text { text } = &message.parts[i] {
            if !text.as_str().is_empty() {
                let ghost before = views(texts@);
                texts.push(text.clone());
                assert(views(texts@) =~= before.push(text@));
            }
        }
        i += 1;
    }
    assert(message.parts@.subrange(0, i as int) == message.parts@);
    join(&texts, "\n")
}

/// The alias for a provider kind, if there is one.
pub open spec fn alias_for(aliases: Seq<ToolAlias>, kind: ProviderKind) -> Option<Seq<char>>
    decreases aliases.len(),
{
    if aliases.len() == 0 {
        None
    } else if aliases[0].provider_kind == kind {
        Some(aliases[0].alias@)
    } else {
        alias_for(aliases.drop_first(), kind)
    }
}

/// What a tool is called, and what one provider calls it.
pub ghost struct ToolNames {
    pub name: Seq<char>,
    pub alias: Option<Seq<char>>,
}

pub open spec fn names_of(spec: ToolSpec, kind: ProviderKind) -> ToolNames {
    ToolNames { name: spec.name.0@, alias: alias_for(spec.provider_aliases@, kind) }
}

pub open spec fn tool_names(specs: Seq<ToolSpec>, kind: ProviderKind) -> Seq<ToolNames> {
    Seq::new(specs.len(), |i: int| names_of(specs[i], kind))
}

/// The position of the first tool with that name.
pub open spec fn is_first_named(names: Seq<ToolNames>, name: Seq<char>, at: int) -> bool {
    &&& 0 <= at < names.len()
    &&& names[at].name == name
    &&& forall|k: int| 0 <= k < at ==> (#[trigger] names[k]).name != name
}

/// The position of the first tool that goes by that alias.
pub open spec fn is_first_aliased(names: Seq<ToolNames>, alias: Seq<char>, at: int) -> bool {
    &&& 0 <= at < names.len()
    &&& names[at].alias == Some(alias)
    &&& forall|k: int| 0 <= k < at ==> (#[trigger] names[k]).alias != Some(alias)
}

pub open spec fn first_named(names: Seq<ToolNames>, name: Seq<char>) -> Option<int> {
    if exists|at: int| is_first_named(names, name, at) {
        Some(choose|at: int| is_first_named(names, name, at))
    } else {
        None
    }
}

pub open spec fn first_aliased(names: Seq<ToolNames>, alias: Seq<char>) -> Option<int> {
    if exists|at: int| is_first_aliased(names, alias, at) {
        Some(choose|at: int| is_first_aliased(names, alias, at))
    } else {
        None
    }
}

/// The name that a provider knows a tool by: the alias of the first tool with
/// that name, or the name itself.
pub open spec fn provider_tool_name(name: Seq<char>, names: Seq<ToolNames>) -> Seq<char> {
    match first_named(names, name) {
        Some(at) => match names[at].alias {
            Some(alias) => alias,
            None => name,
        },
        None => name,
    }
}

/// The tool that a provider means by a name: the first one with that alias, or
/// else the tool of that very name.
pub open spec fn canonical_name(provided: Seq<char>, names: Seq<ToolNames>) -> Seq<char> {
    match first_aliased(names, provided) {
        Some(at) => names[at].name,
        None => provided,
    }
}

fn find_alias(spec: &ToolSpec, kind: ProviderKind) -> (alias: Option<&str>)
    ensures
        crate::json::str_view(alias) == alias_for(spec.provider_aliases@, kind),
{
    let aliases = &spec.provider_aliases;
    let mut i: usize = 0;
    assert(aliases@.subrange(0, aliases.len() as int) == aliases@);
    while i < aliases.len()
        invariant
            *aliases == spec.provider_aliases,
            i <= aliases.len(),
            alias_for(aliases@, kind) == alias_for(
                aliases@.subrange(i as int, aliases.len() as int),
                kind,
            ),
        decreases aliases.len() - i,
    {
        let ghost rest = aliases@.subrange(i as int, aliases.len() as int);
        assert(rest[0] == aliases[i as int]);
        if aliases[i].provider_kind == kind {
            return Some(aliases[i].alias.as_str());
        }
        assert(rest.drop_first() == aliases@.subrange(i + 1, aliases.len() as int));
        i += 1;
    }
    None
}

pub fn tool_name_for_provider(
    name: &ToolName,
    tool_specs: &Vec<ToolSpec>,
    provider_kind: ProviderKind,
) -> (provider_name: String)
    ensures
        provider_name@ == provider_tool_name(name.0@, tool_names(tool_specs@, provider_kind)),
{
    let ghost names = tool_names(tool_specs@, provider_kind);
    let mut i: usize = 0;
    while i < tool_specs.len()
        invariant
            i <= tool_specs.len(),
            names == tool_names(tool_specs@, provider_kind),
            forall|k: int| 0 <= k < i ==> (#[trigger] names[k]).name != name.0@,
        decreases tool_specs.len() - i,
    {
        if same_text(&tool_specs[i].name.0, &name.0) {
            assert(is_first_named(names, name.0@, i as int));
            assert(first_named(names, name.0@) == Some(i as int));
            return match find_alias(&tool_specs[i], provider_kind) {
                Some(alias) => alias.to_owned(),
                None => name.0.clone(),
            };
        }
        i += 1;
    }
    name.0.clone()
}

pub fn canonical_tool_name(
    provided_name: &str,
    tool_specs: &Vec<ToolSpec>,
    provider_kind: ProviderKind,
) -> (name: ToolName)
    ensures
        name.0@ == canonical_name(provided_name@, tool_names(tool_specs@, provider_kind)),
{
    let ghost names = tool_names(tool_specs@, provider_kind);
    let mut i: usize = 0;
    while i < tool_specs.len()
        invariant
            i <= tool_specs.len(),
            names == tool_names(tool_specs@, provider_kind),
            forall|k: int| 0 <= k < i ==> (#[trigger] names[k]).alias != Some(provided_name@),
        decreases tool_specs.len() - i,
    {
        if let Some(alias) = find_alias(&tool_specs[i], provider_kind) {
            if same_text(alias, provided_name) {
                assert(is_first_aliased(names, provided_name@, i as int));
                assert(first_aliased(names, provided_name@) == Some(i as int));
                return tool_specs[i].name.clone();
            }
        }
        i += 1;
    }
    ToolName(provided_name.to_owned())
}

/// Each tool's provider name leads back to it: no two tools share a name, and
/// no tool answers to another tool's provider name.
pub open spec fn names_are_unambiguous(names: Seq<ToolNames>) -> bool {
    forall|a: int, b: int|
        #![trigger names[a], names[b]]
        0 <= a < names.len() && 0 <= b < names.len() && a != b ==> {
            &&& names[a].name != names[b].name
            &&& names[b].alias != Some(provider_tool_name(names[a].name, names))
        }
}

/// Where tool names are unambiguous, what a provider is told a tool is called
/// is read back as that tool.
pub proof fn law_tool_names_round_trip(names: Seq<ToolNames>, at: int)
    requires
        names_are_unambiguous(names),
        0 <= at < names.len(),
    ensures
        canonical_name(provider_tool_name(names[at].name, names), names) == names[at].name,
{
    let name = names[at].name;
    assert(is_first_named(names, name, at));
    let found = first_named(names, name)->0;
    assert(is_first_named(names, name, found));
    assert(found == at);
    let provided = provider_tool_name(name, names);
    match names[at].alias {
        Some(alias) => {
            assert(is_first_aliased(names, provided, at));
            let hit = first_aliased(names, provided)->0;
            assert(is_first_aliased(names, provided, hit));
            assert(hit == at);
        },
        None => {
            assert(provided == name);
            if let Some(hit) = first_aliased(names, provided) {
                assert(is_first_aliased(names, provided, hit));
                assert(hit == at);
            }
        },
    }
}

pub(crate) fn duplicate_aliases(aliases: &Vec<ToolAlias>) -> (copies: Vec<ToolAlias>)
    ensures
        copies@ == aliases@,
{
    let mut copies: Vec<ToolAlias> = Vec::new();
    let mut i: usize = 0;
    while i < aliases.len()
        invariant
            i <= aliases.len(),
            copies@ == aliases@.subrange(0, i as int),
        decreases aliases.len() - i,
    {
        copies.push(
            ToolAlias {
                provider_kind: aliases[i].provider_kind,
                alias: aliases[i].alias.clone(),
            },
        );
        i += 1;
    }
    assert(aliases@.subrange(0, i as int) == aliases@);
    copies
}

/// A copy of the tool list under which every tool keeps its names.
pub fn duplicate_tool_specs(specs: &Vec<ToolSpec>) -> (copies: Vec<ToolSpec>)
    ensures
        copies@.len() == specs@.len(),
        forall|i: int|
            #![trigger copies@[i]]
            0 <= i < specs@.len() ==> {
                &&& copies@[i].name == specs@[i].name
                &&& copies@[i].description == specs@[i].description
                &&& copies@[i].input_schema@ == specs@[i].input_schema@
            },
        forall|kind: ProviderKind| #[trigger]
            tool_names(copies@, kind) == tool_names(specs@, kind),
{
    let mut copies: Vec<ToolSpec> = Vec::new();
    let mut i: usize = 0;
    while i < specs.len()
        invariant
            i <= specs.len(),
            copies.len() == i,
            forall|k: int|
                #![trigger copies@[k]]
                0 <= k < i ==> {
                    &&& copies@[k].name == specs@[k].name
                    &&& copies@[k].description == specs@[k].description
                    &&& copies@[k].input_schema@ == specs@[k].input_schema@
                    &&& copies@[k].provider_aliases@ == specs@[k].provider_aliases@
                },
        decreases specs.len() - i,
    {
        copies.push(
            ToolSpec {
                name: specs[i].name.clone(),
                description: specs[i].description.clone(),
                input_schema: specs[i].input_schema.duplicate(),
                provider_aliases: duplicate_aliases(&specs[i].provider_aliases),
            },
        );
        i += 1;
    }
    assert forall|kind: ProviderKind| #[trigger]
        tool_names(copies@, kind) == tool_names(specs@, kind) by {
        assert(tool_names(copies@, kind) =~= tool_names(specs@, kind));
    }
    copies
}

/// A tool result as the text that the model is shown.
pub open spec fn result_text(result: ToolResult, error: Option<ToolError>) -> Seq<char> {
    match (result, error) {
        (ToolResult::Empty, Some(error)) => error.message@,
        (ToolResult::Text { text }, Some(error)) => text@ + "\n\nerror: "@ + error.message@,
        (ToolResult::Json { value }, Some(error)) => json_text(
            JsonView::Object(
                seq![("result"@, value@), ("error"@, JsonView::Text(error.message@))],
            ),
        ),
        (ToolResult::Empty, None) => Seq::empty(),
        (ToolResult::Text { text }, None) => text@,
        (ToolResult::Json { value }, None) => json_text(value@),
    }
}

pub fn tool_result_text(result: &ToolResult, error: &Option<ToolError>) -> (text: String)
    ensures
        text@ == result_text(*result, *error),
{
    match (result, error) {
        (ToolResult::Empty, Some(error)) => error.message.clone(),
        (ToolResult::Text { text }, Some(error)) => concat3(text, "\n\nerror: ", &error.message),
        (ToolResult::Json { value }, Some(error)) => object2(
            "result",
            value.duplicate(),
            "error",
            text_json(&error.message),
        ).to_text(),
        (ToolResult::Empty, None) => String::new(),
        (ToolResult::Text { text }, None) => text.clone(),
        (ToolResult::Json { value }, None) => value.to_text(),
    }
}

/// How many bytes a text takes in UTF-8.
pub open spec fn byte_length(text: Seq<char>) -> nat {
    encode_utf8(text).len()
}

/// The first eight hexadecimal digits of the text's SHA-256 digest.
pub open spec fn short_hash_text(value: Seq<char>) -> Seq<char> {
    hex_text(sha256_digest(encode_utf8(value))).subrange(0, 8)
}

pub open spec fn is_provider_id_char(c: char) -> bool {
    ('a' <= c <= 'z') || ('A' <= c <= 'Z') || ('0' <= c <= '9') || c == '-' || c == '_'
}

/// Every character that an identifier may not have becomes an underscore.
pub open spec fn sanitized(value: Seq<char>) -> Seq<char> {
    value.map_values(
        |c: char|
            if is_provider_id_char(c) {
                c
            } else {
                '_'
            },
    )
}

/// The last character boundary at or before `index`.
pub open spec fn floor_boundary(bytes: Seq<u8>, index: int) -> int
    decreases index,
{
    if index <= 0 || is_char_boundary(bytes, index) {
        index
    } else {
        floor_boundary(bytes, index - 1)
    }
}

/// As much of the front of a text as fits in `limit` bytes without splitting a
/// character.
pub open spec fn byte_prefix(text: Seq<char>, limit: nat) -> Seq<char> {
    let bytes = encode_utf8(text);
    let index = if limit <= bytes.len() {
        limit as int
    } else {
        bytes.len() as int
    };
    decode_utf8(bytes.subrange(0, floor_boundary(bytes, index)))
}

/// What an identifier is made from: the sanitized value, or a stand-in for an
/// empty one.
pub open spec fn id_base(value: Seq<char>, empty_prefix: Seq<char>) -> Seq<char> {
    if value.len() == 0 {
        empty_prefix + "_"@ + short_hash_text(value)
    } else {
        sanitized(value)
    }
}

/// An identifier of at most `max_len` bytes: the prefix and the base where they
/// fit, and otherwise a shortened base made distinct by the value's hash.
pub open spec fn bounded_id(
    prefix: Seq<char>,
    value: Seq<char>,
    max_len: nat,
    empty_prefix: Seq<char>,
) -> Seq<char> {
    let base = id_base(value, empty_prefix);
    let suffix = short_hash_text(value);
    let available = max_len - byte_length(prefix);
    if byte_length(prefix) + byte_length(base) <= max_len {
        prefix + base
    } else if available <= 0 {
        suffix.subrange(
            0,
            if max_len < 8 {
                max_len as int
            } else {
                8
            },
        )
    } else if available <= 8 {
        prefix + suffix.subrange(0, available)
    } else {
        prefix + byte_prefix(base, (available - 9) as nat) + "_"@ + suffix
    }
}

pub(crate) fn byte_len(text: &str) -> (len: usize)
    ensures
        len == byte_length(text@),
{
    text.as_bytes().len()
}

/// Walks back from `index` to the nearest character boundary at or before it.
pub fn floor_char_boundary(text: &str, index: usize) -> (boundary: usize)
    ensures
        boundary == floor_boundary(
            encode_utf8(text@),
            if index <= byte_length(text@) {
                index as int
            } else {
                byte_length(text@) as int
            },
        ),
        boundary <= index,
        is_char_boundary(encode_utf8(text@), boundary as int),
{
    let len = byte_len(text);
    let mut boundary: usize = if index <= len {
        index
    } else {
        len
    };
    let ghost start = boundary as int;
    while boundary > 0 && !text.is_char_boundary(boundary)
        invariant
            boundary <= start <= index,
            floor_boundary(encode_utf8(text@), start) == floor_boundary(
                encode_utf8(text@),
                boundary as int,
            ),
        decreases boundary,
    {
        boundary -= 1;
    }
    proof {
        vstd::utf8::encode_utf8_valid_utf8(text@);
        vstd::utf8::is_char_boundary_start_end_of_seq(encode_utf8(text@));
    }
    boundary
}

pub fn short_hash(value: &str) -> (hash: String)
    ensures
        hash@ == short_hash_text(value@),
        is_short_hash(hash@),
{
    let digest = sha256(value.as_bytes());
    proof {
        lemma_hash_is_clean(value@);
    }
    let encoded = hex_encode(digest.as_slice());
    encoded.as_str().substring_char(0, 8).to_owned()
}

pub fn sanitize_provider_id(value: &str) -> (id: String)
    ensures
        id@ == sanitized(value@),
{
    let chars = to_chars(value);
    let mut id = String::new();
    let mut i: usize = 0;
    while i < chars.len()
        invariant
            chars@ == value@,
            i <= chars.len(),
            id@ == sanitized(value@.subrange(0, i as int)),
        decreases chars.len() - i,
    {
        let c = chars[i];
        if ('a' <= c && c <= 'z') || ('A' <= c && c <= 'Z') || ('0' <= c && c <= '9') || c == '-'
            || c == '_' {
            id.push(c);
        } else {
            id.push('_');
        }
        assert(id@ =~= sanitized(value@.subrange(0, i + 1)));
        i += 1;
    }
    assert(value@.subrange(0, i as int) == value@);
    id
}

proof fn lemma_encode_append(a: Seq<char>, b: Seq<char>)
    ensures
        encode_utf8(a + b) == encode_utf8(a) + encode_utf8(b),
    decreases a.len(),
{
    if a.len() == 0 {
        assert(a + b =~= b);
        assert(encode_utf8(a) =~= Seq::empty());
        assert(encode_utf8(a) + encode_utf8(b) =~= encode_utf8(b));
    } else {
        assert((a + b).drop_first() =~= a.drop_first() + b);
        lemma_encode_append(a.drop_first(), b);
        assert((a + b)[0] == a[0]);
        assert(encode_utf8(a + b) =~= encode_utf8(a) + encode_utf8(b));
    }
}

proof fn lemma_byte_prefix(text: Seq<char>, limit: nat)
    ensures
        byte_length(byte_prefix(text, limit)) <= limit,
        crate::text::has_prefix(text, byte_prefix(text, limit)),
{
    let bytes = encode_utf8(text);
    let index = if limit <= bytes.len() {
        limit as int
    } else {
        bytes.len() as int
    };
    vstd::utf8::encode_utf8_valid_utf8(text);
    lemma_floor_boundary(bytes, index);
    let end = floor_boundary(bytes, index);
    vstd::utf8::valid_utf8_split(bytes, end);
    vstd::utf8::decode_utf8_encode_utf8(bytes.subrange(0, end));
    vstd::utf8::decode_utf8_split(bytes, end);
    vstd::utf8::encode_utf8_decode_utf8(text);
    let kept = byte_prefix(text, limit);
    assert(text == kept + decode_utf8(bytes.subrange(end, bytes.len() as int)));
    assert(text.subrange(0, kept.len() as int) =~= kept);
}

/// Only characters that a provider identifier may have.
pub open spec fn is_clean_id(text: Seq<char>) -> bool {
    forall|i: int| 0 <= i < text.len() ==> is_provider_id_char(#[trigger] text[i])
}

/// Sanitizing gives a clean identifier of the same length, and leaves a clean
/// one alone.
pub proof fn law_sanitized_is_clean(value: Seq<char>)
    ensures
        is_clean_id(sanitized(value)),
        sanitized(value).len() == value.len(),
        is_clean_id(value) ==> sanitized(value) == value,
{
    if is_clean_id(value) {
        assert(sanitized(value) =~= value);
    }
}

/// A clean value that fits is an identifier as it stands.
pub proof fn law_clean_short_id_is_kept(value: Seq<char>, max_len: nat, empty_prefix: Seq<char>)
    requires
        0 < value.len() <= max_len,
        is_clean_id(value),
    ensures
        bounded_id(Seq::empty(), value, max_len, empty_prefix) == value,
{
    law_sanitized_is_clean(value);
    lemma_clean_bytes(value);
    assert(encode_utf8(Seq::<char>::empty()) =~= Seq::empty());
    assert(Seq::<char>::empty() + value =~= value);
}

proof fn lemma_clean_bytes(text: Seq<char>)
    requires
        is_clean_id(text),
    ensures
        byte_length(text) == text.len(),
{
    assert(vstd::utf8::is_ascii_chars(text)) by {
        assert forall|i: int| 0 <= i < text.len() implies 0 <= (#[trigger] text[i]) as nat && text[i] as nat
            <= 127 by {
            assert(is_provider_id_char(text[i]));
        }
    }
    vstd::utf8::is_ascii_chars_encode_utf8(text);
}

proof fn lemma_hash_is_clean(value: Seq<char>)
    requires
        sha256_digest(encode_utf8(value)).len() == 32,
    ensures
        is_short_hash(short_hash_text(value)),
{
    let digest = sha256_digest(encode_utf8(value));
    assert forall|i: int| 0 <= i < 8 implies is_provider_id_char(#[trigger] short_hash_text(value)[i]) by {
        assert(short_hash_text(value)[i] == hex_text(digest)[i]);
    }
}

/// Eight characters that an identifier may have.
pub open spec fn is_short_hash(text: Seq<char>) -> bool {
    text.len() == 8 && is_clean_id(text)
}

proof fn lemma_bounded_id(
    prefix: Seq<char>,
    value: Seq<char>,
    max_len: nat,
    empty_prefix: Seq<char>,
)
    requires
        is_short_hash(short_hash_text(value)) || (value.len() > 0 && byte_length(prefix)
            + byte_length(sanitized(value)) <= max_len),
    ensures
        byte_length(bounded_id(prefix, value, max_len, empty_prefix)) <= max_len,
        max_len > 0 ==> bounded_id(prefix, value, max_len, empty_prefix).len() > 0,
        is_clean_id(prefix) && (value.len() > 0 || is_clean_id(empty_prefix)) ==> is_clean_id(
            bounded_id(prefix, value, max_len, empty_prefix),
        ),
{
    let base = id_base(value, empty_prefix);
    let suffix = short_hash_text(value);
    let available = max_len - byte_length(prefix);
    reveal_strlit("_");
    law_sanitized_is_clean(value);
    if byte_length(prefix) + byte_length(base) <= max_len {
        lemma_encode_append(prefix, base);
    } else if available <= 0 {
        let kept = suffix.subrange(
            0,
            if max_len < 8 {
                max_len as int
            } else {
                8
            },
        );
        assert(is_clean_id(kept));
        lemma_clean_bytes(kept);
    } else if available <= 8 {
        let kept = suffix.subrange(0, available);
        assert(is_clean_id(kept));
        lemma_clean_bytes(kept);
        lemma_encode_append(prefix, kept);
    } else {
        let head = byte_prefix(base, (available - 9) as nat);
        lemma_byte_prefix(base, (available - 9) as nat);
        lemma_clean_bytes(suffix);
        assert("_"@ =~= seq!['_']);
        lemma_clean_bytes("_"@);
        lemma_encode_append(prefix, head);
        lemma_encode_append(prefix + head, "_"@);
        lemma_encode_append(prefix + head + "_"@, suffix);
        assert(forall|i: int| 0 <= i < head.len() ==> head[i] == base.subrange(0, head.len() as int)[i]);
    }
}

proof fn lemma_floor_boundary(bytes: Seq<u8>, index: int)
    requires
        vstd::utf8::valid_utf8(bytes),
        0 <= index <= bytes.len(),
    ensures
        0 <= floor_boundary(bytes, index) <= index,
        is_char_boundary(bytes, floor_boundary(bytes, index)),
    decreases index,
{
    vstd::utf8::is_char_boundary_start_end_of_seq(bytes);
    if index > 0 && !is_char_boundary(bytes, index) {
        lemma_floor_boundary(bytes, index - 1);
    }
}

fn take_byte_prefix(text: &str, limit: usize) -> (kept: String)
    ensures
        kept@ == byte_prefix(text@, limit as nat),
{
    let end = floor_char_boundary(text, limit);
    let (kept, _) = text.split_at(end);
    proof {
        vstd::utf8::encode_utf8_decode_utf8(kept@);
    }
    kept.to_owned()
}

pub fn bounded_provider_id_with_prefix(
    prefix: &str,
    value: &str,
    max_len: usize,
    empty_prefix: &str,
) -> (id: String)
    ensures
        id@ == bounded_id(prefix@, value@, max_len as nat, empty_prefix@),
        byte_length(id@) <= max_len,
        max_len > 0 ==> id@.len() > 0,
        is_clean_id(prefix@) && (value@.len() > 0 || is_clean_id(empty_prefix@)) ==> is_clean_id(
            id@,
        ),
{
    let clean = sanitize_provider_id(value);
    let base = if clean.as_str().is_empty() {
        concat3(empty_prefix, "_", &short_hash(value))
    } else {
        clean
    };
    assert(base@ == id_base(value@, empty_prefix@));
    let prefix_len = byte_len(prefix);
    let base_len = byte_len(&base);
    if base_len <= max_len && prefix_len <= max_len - base_len {
        proof {
            lemma_bounded_id(prefix@, value@, max_len as nat, empty_prefix@);
        }
        return concat2(prefix, &base);
    }
    let suffix = short_hash(value);
    proof {
        lemma_bounded_id(prefix@, value@, max_len as nat, empty_prefix@);
    }
    if max_len <= prefix_len {
        let kept: usize = if max_len < 8 {
            max_len
        } else {
            8
        };
        return suffix.as_str().substring_char(0, kept).to_owned();
    }
    let available: usize = max_len - prefix_len;
    if available <= 8 {
        return concat2(prefix, suffix.as_str().substring_char(0, available));
    }
    let head = take_byte_prefix(&base, available - 9);
    concat4(prefix, &head, "_", &suffix)
}

pub fn bounded_provider_id(value: &str, max_len: usize, empty_prefix: &str) -> (id: String)
    ensures
        id@ == bounded_id(Seq::empty(), value@, max_len as nat, empty_prefix@),
        byte_length(id@) <= max_len,
        max_len > 0 ==> id@.len() > 0,
        value@.len() > 0 || is_clean_id(empty_prefix@) ==> is_clean_id(id@),
{
    proof {
        reveal_strlit("");
        assert(""@ =~= Seq::empty());
    }
    bounded_provider_id_with_prefix("", value, max_len, empty_prefix)
}

/// The identifier that a tool call goes by at the provider.
pub open spec fn normalized_call_id(call_id: Seq<char>) -> Seq<char> {
    bounded_id(Seq::empty(), call_id, PROVIDER_ID_MAX_LEN as nat, "tool"@)
}

pub fn normalized_tool_call_id(call_id: &ToolCallId) -> (id: String)
    ensures
        id@ == normalized_call_id(call_id.0@),
        byte_length(id@) <= PROVIDER_ID_MAX_LEN,
        is_clean_id(id@),
        normalized_call_id(id@) == id@,
{
    proof {
        reveal_strlit("tool");
    }
    let id = bounded_provider_id(&call_id.0, PROVIDER_ID_MAX_LEN, "tool");
    proof {
        lemma_clean_bytes(id@);
        law_clean_short_id_is_kept(id@, PROVIDER_ID_MAX_LEN as nat, "tool"@);
    }
    id
}

/// The bytes as a `data:` URL.
pub open spec fn data_url_text(media_type: Seq<char>, data: Seq<u8>) -> Seq<char> {
    "data:"@ + media_type + ";base64,"@ + base64_text(data)
}

pub fn data_url(media_type: &str, data: &MediaBytes) -> (url: String)
    ensures
        url@ == data_url_text(media_type@, data@),
{
    concat4("data:", media_type, ";base64,", &base64_encode(data.as_slice()))
}

/// The file name that a document is sent under.
pub open spec fn document_name(media_type: Seq<char>) -> Seq<char> {
    if media_type == "application/pdf"@ {
        "upload.pdf"@
    } else if media_type == "text/plain"@ {
        "upload.txt"@
    } else {
        "upload.bin"@
    }
}

pub fn document_filename(media_type: &str) -> (name: String)
    ensures
        name@ == document_name(media_type@),
{
    if same_text(media_type, "application/pdf") {
        "upload.pdf".to_owned()
    } else if same_text(media_type, "text/plain") {
        "upload.txt".to_owned()
    } else {
        "upload.bin".to_owned()
    }
}

proof fn lemma_clean_prefix(text: Seq<char>, limit: nat)
    requires
        is_clean_id(text),
        limit <= text.len(),
    ensures
        byte_prefix(text, limit) == text.subrange(0, limit as int),
{
    lemma_clean_bytes(text);
    lemma_byte_prefix(text, limit);
    let bytes = encode_utf8(text);
    let kept = byte_prefix(text, limit);
    vstd::utf8::encode_utf8_valid_utf8(text);
    assert(vstd::utf8::is_ascii_chars(text)) by {
        assert forall|i: int| 0 <= i < text.len() implies 0 <= (#[trigger] text[i]) as nat && text[i] as nat
            <= 127 by {
            assert(is_provider_id_char(text[i]));
        }
    }
    vstd::utf8::is_ascii_chars_encode_utf8(text);
    vstd::utf8::is_char_boundary_start_end_of_seq(bytes);
    if limit < text.len() {
        assert(is_provider_id_char(text[limit as int]));
        assert(bytes[limit as int] == text[limit as int] as u8);
        vstd::utf8::is_char_boundary_iff_is_leading_byte(bytes, limit as int);
        assert(vstd::utf8::is_leading_byte_width_1(bytes[limit as int]));
    }
    assert(is_char_boundary(bytes, limit as int));
    assert(floor_boundary(bytes, limit as int) == limit);
    vstd::utf8::valid_utf8_split(bytes, limit as int);
    vstd::utf8::decode_utf8_encode_utf8(bytes.subrange(0, limit as int));
    assert(byte_length(kept) == limit);
    assert forall|i: int| 0 <= i < kept.len() implies is_provider_id_char(#[trigger] kept[i]) by {
        assert(kept[i] == text.subrange(0, kept.len() as int)[i]);
    }
    lemma_clean_bytes(kept);
}

/// Of an identifier that is too long the beginning is kept, and the hash of the whole
/// stands behind it; where there is no room for both, the hash alone, as far as it fits.
pub proof fn law_long_id_ends_in_its_hash(
    prefix: Seq<char>,
    value: Seq<char>,
    max_len: nat,
    empty_prefix: Seq<char>,
)
    requires
        is_clean_id(prefix),
        value.len() > 0,
        prefix.len() + value.len() > max_len,
    ensures
        prefix.len() + 9 <= max_len ==> bounded_id(prefix, value, max_len, empty_prefix) == prefix
            + sanitized(value).subrange(0, max_len - prefix.len() - 9) + "_"@ + short_hash_text(
            value,
        ),
        prefix.len() < max_len < prefix.len() + 9 ==> bounded_id(
            prefix,
            value,
            max_len,
            empty_prefix,
        ) == prefix + short_hash_text(value).subrange(0, max_len - prefix.len()),
        max_len <= prefix.len() && max_len <= 8 ==> bounded_id(prefix, value, max_len, empty_prefix)
            == short_hash_text(value).subrange(0, max_len as int),
{
    law_sanitized_is_clean(value);
    lemma_clean_bytes(prefix);
    lemma_clean_bytes(sanitized(value));
    if prefix.len() + 9 <= max_len {
        lemma_clean_prefix(sanitized(value), (max_len - prefix.len() - 9) as nat);
    }
}

/// An identifier that fits stands behind its prefix, with `_` in place of what an
/// identifier may not hold. One without a letter is named by its hash.
pub proof fn law_short_id_is_kept(
    prefix: Seq<char>,
    value: Seq<char>,
    max_len: nat,
    empty_prefix: Seq<char>,
    i: int,
)
    requires
        is_clean_id(prefix),
        0 < value.len(),
        prefix.len() + value.len() <= max_len,
        0 <= i < value.len(),
    ensures
        bounded_id(prefix, value, max_len, empty_prefix).len() == prefix.len() + value.len(),
        bounded_id(prefix, value, max_len, empty_prefix).subrange(0, prefix.len() as int) == prefix,
        ({
            let c = value[i];
            let kept = bounded_id(prefix, value, max_len, empty_prefix)[prefix.len() + i];
            if ('a' <= c <= 'z') || ('A' <= c <= 'Z') || ('0' <= c <= '9') || c == '-' || c == '_' {
                kept == c
            } else {
                kept == '_'
            }
        }),
{
    law_sanitized_is_clean(value);
    lemma_clean_bytes(prefix);
    lemma_clean_bytes(sanitized(value));
    assert((prefix + sanitized(value)).subrange(0, prefix.len() as int) =~= prefix);
}

/// The identifier of a call has sixty-four characters at most; a call without one is
/// named by a hash.
pub proof fn law_call_id_is_bounded(value: Seq<char>)
    ensures
        0 < value.len() <= 64 && is_clean_id(value) ==> normalized_call_id(value) == value,
        value.len() > 64 ==> normalized_call_id(value) == sanitized(value).subrange(0, 55) + "_"@
            + short_hash_text(value),
        value.len() == 0 && is_short_hash(short_hash_text(value)) ==> normalized_call_id(value)
            == "tool_"@ + short_hash_text(value),
{
    let none = Seq::<char>::empty();
    assert(is_clean_id(none));
    lemma_clean_bytes(none);
    if 0 < value.len() <= 64 && is_clean_id(value) {
        law_clean_short_id_is_kept(value, 64, "tool"@);
    }
    if value.len() > 64 {
        law_long_id_ends_in_its_hash(none, value, 64, "tool"@);
        assert(none + sanitized(value).subrange(0, 55) =~= sanitized(value).subrange(0, 55));
    }
    if value.len() == 0 && is_short_hash(short_hash_text(value)) {
        reveal_strlit("tool");
        reveal_strlit("_");
        reveal_strlit("tool_");
        assert("tool"@ + "_"@ =~= "tool_"@);
        let base = "tool_"@ + short_hash_text(value);
        assert(is_clean_id("tool_"@));
        assert(is_clean_id(base));
        lemma_clean_bytes(base);
        assert(none + base =~= base);
    }
}

/// A tool is offered under its alias, where the first tool of that name has one, and
/// under its own name otherwise. A name that comes back is that of the first tool with
/// that alias, and stands for itself where no tool has it.
pub proof fn law_alias_stands_for_its_tool(names: Seq<ToolNames>, at: int, name: Seq<char>)
    ensures
        is_first_named(names, name, at) && names[at].alias is Some ==> provider_tool_name(
            name,
            names,
        ) == names[at].alias->0,
        is_first_named(names, name, at) && names[at].alias is None ==> provider_tool_name(
            name,
            names,
        ) == name,
        (forall|k: int| 0 <= k < names.len() ==> (#[trigger] names[k]).name != name)
            ==> provider_tool_name(name, names) == name,
        is_first_aliased(names, name, at) ==> canonical_name(name, names) == names[at].name,
        (forall|k: int| 0 <= k < names.len() ==> (#[trigger] names[k]).alias != Some(name))
            ==> canonical_name(name, names) == name,
{
    if is_first_named(names, name, at) {
        let found = choose|found: int| is_first_named(names, name, found);
        assert(is_first_named(names, name, found));
        assert(found == at) by {
            if found < at {
                assert(names[found].name != name);
            }
            if at < found {
                assert(names[at].name != name);
            }
        }
    }
    if is_first_aliased(names, name, at) {
        let found = choose|found: int| is_first_aliased(names, name, found);
        assert(is_first_aliased(names, name, found));
        assert(found == at) by {
            if found < at {
                assert(names[found].alias != Some(name));
            }
            if at < found {
                assert(names[at].alias != Some(name));
            }
        }
    }
}

/// A provider sees the first alias that was made for it.
pub proof fn law_first_alias_for_the_provider_counts(
    aliases: Seq<ToolAlias>,
    kind: ProviderKind,
    at: int,
)
    requires
        0 <= at <= aliases.len(),
        forall|k: int| 0 <= k < at ==> (#[trigger] aliases[k]).provider_kind != kind,
    ensures
        at < aliases.len() && aliases[at].provider_kind == kind ==> alias_for(aliases, kind) == Some(
            aliases[at].alias@,
        ),
        at == aliases.len() ==> alias_for(aliases, kind) is None,
    decreases aliases.len(),
{
    if at > 0 {
        assert(aliases[0].provider_kind != kind);
        assert forall|k: int| 0 <= k < at - 1 implies (
        #[trigger] aliases.drop_first()[k]).provider_kind != kind by {
            assert(aliases[k + 1].provider_kind != kind);
        }
        law_first_alias_for_the_provider_counts(aliases.drop_first(), kind, at - 1);
    }
}

/// The text of a result holds what the tool gave and, behind it, what went wrong.
pub proof fn law_result_text_tells_both(given: String, value: Json, error: ToolError)
    ensures
        result_text(ToolResult::Empty, None) == ""@,
        result_text(ToolResult::Empty, Some(error)) == error.message@,
        result_text(ToolResult::Text { text: given }, None) == given@,
        result_text(ToolResult::Text { text: given }, Some(error)) == given@ + "\n\nerror: "@
            + error.message@,
        result_text(ToolResult::Json { value }, None) == json_text(value@),
        exists|both: JsonView|
            {
                &&& result_text(ToolResult::Json { value }, Some(error)) == #[trigger] json_text(both)
                &&& both.get("result"@) == Some(value@)
                &&& both.get("error"@) == Some(JsonView::Text(error.message@))
            },
{
    reveal_strlit("");
    assert(Seq::<char>::empty() =~= ""@);
    reveal_strlit("result");
    reveal_strlit("error");
    assert("result"@.len() == 6);
    assert("error"@.len() == 5);
    let both = JsonView::Object(
        seq![("result"@, value@), ("error"@, JsonView::Text(error.message@))],
    );
    crate::json::lemma_member(both, 0, "result"@);
    crate::json::lemma_member(both, 1, "error"@);
    assert(result_text(ToolResult::Json { value }, Some(error)) == json_text(both));
}

/// Media go into a text with their type and their bytes in base64; documents have a name
/// that goes with their type.
pub proof fn law_media_are_written_out(media_type: Seq<char>, data: Seq<u8>)
    ensures
        data_url_text(media_type, data) == "data:"@ + media_type + ";base64,"@ + base64_text(data),
        media_type == "application/pdf"@ ==> document_name(media_type) == "upload.pdf"@,
        media_type == "text/plain"@ ==> document_name(media_type) == "upload.txt"@,
        media_type != "application/pdf"@ && media_type != "text/plain"@ ==> document_name(media_type)
            == "upload.bin"@,
{
    reveal_strlit("application/pdf");
    reveal_strlit("text/plain");
    assert("application/pdf"@.len() == 15);
    assert("text/plain"@.len() == 10);
}

/// An identifier without a letter is named by what it is for, and its hash.
pub proof fn law_empty_id_is_named_by_its_hash(
    prefix: Seq<char>,
    max_len: nat,
    empty_prefix: Seq<char>,
)
    requires
        is_clean_id(prefix),
        is_clean_id(empty_prefix),
        is_short_hash(short_hash_text(Seq::empty())),
        prefix.len() + empty_prefix.len() + 9 <= max_len,
    ensures
        bounded_id(prefix, Seq::empty(), max_len, empty_prefix) == prefix + empty_prefix + "_"@
            + short_hash_text(Seq::empty()),
{
    let hash = short_hash_text(Seq::empty());
    reveal_strlit("_");
    let base = empty_prefix + "_"@ + hash;
    assert(is_clean_id(base));
    lemma_clean_bytes(prefix);
    lemma_clean_bytes(base);
    assert(prefix + base =~= prefix + empty_prefix + "_"@ + hash);
}

/// A message has media where any of its parts is no text.
pub proof fn law_media_are_noticed(parts: Seq<UserPart>, part: UserPart)
    ensures
        !user_has_media(Seq::empty()),
        !(part is Text) ==> user_has_media(parts.push(part)),
        part is Text ==> user_has_media(parts.push(part)) == user_has_media(parts),
{
    let all = parts.push(part);
    if !(part is Text) {
        assert(!(all[parts.len() as int] is Text));
    } else if user_has_media(parts) {
        let i = choose|i: int| 0 <= i < parts.len() && !(#[trigger] parts[i] is Text);
        assert(!(all[i] is Text));
    } else if user_has_media(all) {
        let i = choose|i: int| 0 <= i < all.len() && !(#[trigger] all[i] is Text);
        assert(i < parts.len());
        assert(!(parts[i] is Text));
    }
}

} // verus!
