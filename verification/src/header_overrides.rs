//! Header fields that a user sets in place of the built-in ones.

use reqwest::header::{HeaderMap, HeaderValue};
use vstd::prelude::*;
use vstd::utf8::encode_utf8;

use crate::headers::{
    check_header_value, header_entries, insert_header, is_header_name, is_header_value,
    normal_header_name, HEADER_MAP_ROOM,
};
use crate::protocol::CodecError;
use crate::text::{concat3, lower_ascii, same_text, to_ascii_lowercase, to_chars};

verus! {

/// Names with their values, as text.
pub open spec fn pairs_view(pairs: Seq<(String, String)>) -> Seq<(Seq<char>, Seq<char>)> {
    pairs.map_values(|pair: (String, String)| (pair.0@, pair.1@))
}

/// Appends a name with its value.
pub fn push_pair(pairs: &mut Vec<(String, String)>, name: String, value: String)
    ensures
        pairs_view(final(pairs)@) == pairs_view(old(pairs)@).push((name@, value@)),
{
    pairs.push((name, value));
    assert(pairs_view(pairs@) =~= pairs_view(old(pairs)@).push((name@, value@)));
}

/// User-supplied header fields, applied whatever the capitals of their names.
/// Names are kept in small letters, values as they were given.
#[derive(Debug)]
pub struct HeaderOverrides {
    entries: Vec<(String, String)>,
}

impl View for HeaderOverrides {
    type V = Seq<(Seq<char>, Seq<char>)>;

    closed spec fn view(&self) -> Seq<(Seq<char>, Seq<char>)> {
        pairs_view(self.entries@)
    }
}

/// Names and values that a header map takes.
pub open spec fn sendable(pairs: Seq<(Seq<char>, Seq<char>)>) -> bool {
    forall|i: int|
        0 <= i < pairs.len() ==> is_header_name((#[trigger] pairs[i]).0) && is_header_value(
            pairs[i].1,
        )
}

/// The names in small letters, with their values.
pub open spec fn small_names(pairs: Seq<(Seq<char>, Seq<char>)>) -> Seq<(Seq<char>, Seq<char>)> {
    pairs.map_values(|pair: (Seq<char>, Seq<char>)| (lower_ascii(pair.0), pair.1))
}

/// What is wrong with one pair.
pub open spec fn pair_error(pair: (Seq<char>, Seq<char>)) -> Option<Seq<char>> {
    if !is_header_name(pair.0) {
        Some("invalid http header name '"@ + pair.0 + "'"@)
    } else if !is_header_value(pair.1) {
        Some("invalid http header value for '"@ + pair.0 + "'"@)
    } else {
        None
    }
}

/// What is wrong with the first bad pair.
pub open spec fn first_pair_error(pairs: Seq<(Seq<char>, Seq<char>)>) -> Option<Seq<char>>
    decreases pairs.len(),
{
    if pairs.len() == 0 {
        None
    } else {
        match first_pair_error(pairs.drop_last()) {
            Some(error) => Some(error),
            None => pair_error(pairs.last()),
        }
    }
}

/// One of the pairs has the name in small letters.
pub open spec fn names(pairs: Seq<(Seq<char>, Seq<char>)>, small_name: Seq<char>) -> bool {
    exists|i: int| 0 <= i < pairs.len() && (#[trigger] pairs[i]).0 == small_name
}

/// The defaults whose names no override has.
pub open spec fn not_overridden(
    defaults: Seq<(Seq<char>, Seq<char>)>,
    overrides: Seq<(Seq<char>, Seq<char>)>,
) -> Seq<(Seq<char>, Seq<char>)>
    decreases defaults.len(),
{
    if defaults.len() == 0 {
        Seq::empty()
    } else {
        let rest = not_overridden(defaults.drop_last(), overrides);
        if names(overrides, lower_ascii(defaults.last().0)) {
            rest
        } else {
            rest.push(defaults.last())
        }
    }
}

/// Header entries after each pair was put in place of what its name had.
pub open spec fn with_pairs(
    entries: Map<Seq<char>, Seq<(Seq<u8>, bool)>>,
    pairs: Seq<(Seq<char>, Seq<char>)>,
) -> Map<Seq<char>, Seq<(Seq<u8>, bool)>>
    decreases pairs.len(),
{
    if pairs.len() == 0 {
        entries
    } else {
        with_pairs(entries, pairs.drop_last()).insert(
            lower_ascii(pairs.last().0),
            seq![(encode_utf8(pairs.last().1), false)],
        )
    }
}

/// Every value is visible ASCII text.
pub open spec fn all_plain(pairs: Seq<(Seq<char>, Seq<char>)>) -> bool {
    forall|i: int| 0 <= i < pairs.len() ==> is_plain_value((#[trigger] pairs[i]).1)
}

pub open spec fn is_plain_value(value: Seq<char>) -> bool {
    forall|i: int| 0 <= i < value.len() ==> (#[trigger] value[i] as u32) < 128
}

fn value_is_plain(value: &str) -> (plain: bool)
    ensures
        plain == is_plain_value(value@),
{
    let chars = to_chars(value);
    let mut i: usize = 0;
    while i < chars.len()
        invariant
            chars@ == value@,
            i <= chars.len(),
            forall|k: int| 0 <= k < i ==> (#[trigger] value@[k] as u32) < 128,
        decreases chars.len() - i,
    {
        if chars[i] as u32 >= 128 {
            assert(value@[i as int] as u32 >= 128);
            return false;
        }
        i += 1;
    }
    true
}

proof fn lemma_small_names_sendable(pairs: Seq<(Seq<char>, Seq<char>)>)
    requires
        sendable(pairs),
    ensures
        sendable(small_names(pairs)),
{
    let small = small_names(pairs);
    assert forall|i: int| 0 <= i < small.len() implies is_header_name((#[trigger] small[i]).0)
        && is_header_value(small[i].1) by {
        assert(is_header_name(pairs[i].0));
        let name = pairs[i].0;
        assert forall|k: int| 0 <= k < small[i].0.len() implies crate::headers::is_name_char(
            #[trigger] small[i].0[k],
        ) by {
            assert(crate::headers::is_name_char(name[k]));
        }
    }
}

impl HeaderOverrides {
    #[verifier::type_invariant]
    closed spec fn is_sendable(self) -> bool {
        sendable(pairs_view(self.entries@))
    }

    /// Takes the fields, unless one of them could not be sent.
    pub fn new(raw: &[(String, String)]) -> (overrides: Result<HeaderOverrides, CodecError>)
        ensures
            match overrides {
                Ok(overrides) => first_pair_error(pairs_view(raw@)) is None && overrides@
                    == small_names(pairs_view(raw@)) && sendable(overrides@),
                Err(error) => first_pair_error(pairs_view(raw@)) == Some(error@),
            },
    {
        let ghost all = pairs_view(raw@);
        let mut entries: Vec<(String, String)> = Vec::new();
        let mut i: usize = 0;
        assert(pairs_view(entries@) =~= small_names(all.subrange(0, 0)));
        while i < raw.len()
            invariant
                all == pairs_view(raw@),
                i <= raw.len(),
                pairs_view(entries@) == small_names(all.subrange(0, i as int)),
                first_pair_error(all.subrange(0, i as int)) is None,
                sendable(all.subrange(0, i as int)),
            decreases raw.len() - i,
        {
            let (name, value) = &raw[i];
            let ghost next = all.subrange(0, i + 1);
            assert(next.drop_last() == all.subrange(0, i as int));
            assert(next.last() == (name@, value@));
            let normal = match normal_header_name(name) {
                Ok(normal) => normal,
                Err(_) => {
                    proof {
                        lemma_first_error_stays(all, i + 1);
                    }
                    return Err(
                        CodecError { message: concat3("invalid http header name '", name, "'") },
                    );
                },
            };
            if check_header_value(value).is_err() {
                proof {
                    lemma_first_error_stays(all, i + 1);
                }
                return Err(
                    CodecError { message: concat3("invalid http header value for '", name, "'") },
                );
            }
            push_pair(&mut entries, normal, value.clone());
            assert(small_names(next) =~= small_names(all.subrange(0, i as int)).push(
                (lower_ascii(name@), value@),
            ));
            assert forall|k: int| 0 <= k < next.len() implies is_header_name((#[trigger] next[k]).0)
                && is_header_value(next[k].1) by {
                if k < i {
                    assert(next[k] == all.subrange(0, i as int)[k]);
                }
            }
            i += 1;
        }
        assert(all.subrange(0, i as int) == all);
        proof {
            lemma_small_names_sendable(all);
        }
        Ok(HeaderOverrides { entries })
    }

    /// Whether a field of that name is overridden.
    pub fn contains(&self, name: &str) -> (found: bool)
        ensures
            found == names(self@, lower_ascii(name@)),
    {
        let small = to_ascii_lowercase(name);
        let mut i: usize = 0;
        while i < self.entries.len()
            invariant
                small@ == lower_ascii(name@),
                i <= self.entries.len(),
                forall|k: int| 0 <= k < i ==> (#[trigger] self@[k]).0 != small@,
            decreases self.entries.len() - i,
        {
            assert(self@[i as int] == (self.entries[i as int].0@, self.entries[i as int].1@));
            if same_text(&self.entries[i].0, &small) {
                return true;
            }
            i += 1;
        }
        false
    }

    /// Puts the overrides into a header map, in place of what stood there under
    /// their names.
    pub fn apply_to_map(&self, map: &mut HeaderMap<HeaderValue>)
        requires
            header_entries(*old(map)).dom().finite(),
            header_entries(*old(map)).dom().len() + self@.len() <= HEADER_MAP_ROOM + 1,
        ensures
            header_entries(*final(map)) == with_pairs(header_entries(*old(map)), self@),
    {
        proof {
            use_type_invariant(self);
        }
        let ghost all = self@;
        let ghost before = header_entries(*map);
        let mut i: usize = 0;
        while i < self.entries.len()
            invariant
                all == self@,
                sendable(all),
                before == header_entries(*old(map)),
                i <= self.entries.len(),
                header_entries(*map) == with_pairs(before, all.subrange(0, i as int)),
                header_entries(*map).dom().finite(),
                header_entries(*map).dom().len() <= before.dom().len() + i,
                before.dom().len() + all.len() <= HEADER_MAP_ROOM + 1,
            decreases self.entries.len() - i,
        {
            let ghost next = all.subrange(0, i + 1);
            assert(next.drop_last() == all.subrange(0, i as int));
            assert(all[i as int] == (self.entries[i as int].0@, self.entries[i as int].1@));
            let ghost step = header_entries(*map);
            insert_header(map, &self.entries[i].0, &self.entries[i].1, false);
            assert(header_entries(*map).dom() =~= step.dom().insert(
                lower_ascii(self.entries[i as int].0@),
            ));
            i += 1;
        }
        assert(all.subrange(0, i as int) == all);
    }

    /// Whether every value is visible ASCII text.
    pub fn is_plain(&self) -> (plain: bool)
        ensures
            plain == all_plain(self@),
    {
        let mut i: usize = 0;
        while i < self.entries.len()
            invariant
                i <= self.entries.len(),
                forall|k: int| 0 <= k < i ==> is_plain_value((#[trigger] self@[k]).1),
            decreases self.entries.len() - i,
        {
            assert(self@[i as int].1 == self.entries[i as int].1@);
            if !value_is_plain(&self.entries[i].1) {
                return false;
            }
            i += 1;
        }
        true
    }

    /// The defaults whose names are not overridden, then the overrides in order.
    /// The overrides' values have to be visible ASCII text.
    pub fn merge_string_pairs(&self, defaults: Vec<(String, String)>) -> (merged: Vec<
        (String, String),
    >)
        requires
            all_plain(self@),
        ensures
            pairs_view(merged@) == not_overridden(pairs_view(defaults@), self@) + self@,
    {
        let ghost given = pairs_view(defaults@);
        let ghost kept = not_overridden(given, self@);
        let mut merged: Vec<(String, String)> = Vec::new();
        let mut i: usize = 0;
        assert(pairs_view(merged@) =~= not_overridden(given.subrange(0, 0), self@));
        while i < defaults.len()
            invariant
                given == pairs_view(defaults@),
                i <= defaults.len(),
                pairs_view(merged@) == not_overridden(given.subrange(0, i as int), self@),
            decreases defaults.len() - i,
        {
            assert(given.subrange(0, i + 1).drop_last() == given.subrange(0, i as int));
            let (name, value) = &defaults[i];
            assert(given[i as int] == (name@, value@));
            if !self.contains(name) {
                push_pair(&mut merged, name.clone(), value.clone());
            }
            i += 1;
        }
        assert(given.subrange(0, i as int) == given);
        let mut j: usize = 0;
        assert(kept + self@.subrange(0, 0) =~= kept);
        while j < self.entries.len()
            invariant
                j <= self.entries.len(),
                pairs_view(merged@) == kept + self@.subrange(0, j as int),
            decreases self.entries.len() - j,
        {
            let (name, value) = &self.entries[j];
            assert(self@[j as int] == (name@, value@));
            push_pair(&mut merged, name.clone(), value.clone());
            assert(kept + self@.subrange(0, j + 1) =~= (kept + self@.subrange(0, j as int)).push(
                (name@, value@),
            ));
            j += 1;
        }
        assert(self@.subrange(0, j as int) =~= self@);
        merged
    }
}

impl Default for HeaderOverrides {
    fn default() -> (overrides: HeaderOverrides)
        ensures
            overrides@ == Seq::<(Seq<char>, Seq<char>)>::empty(),
    {
        let overrides = HeaderOverrides { entries: Vec::new() };
        assert(overrides@ =~= Seq::<(Seq<char>, Seq<char>)>::empty());
        overrides
    }
}

proof fn lemma_first_error_stays(pairs: Seq<(Seq<char>, Seq<char>)>, n: int)
    requires
        0 <= n <= pairs.len(),
        first_pair_error(pairs.subrange(0, n)) is Some,
    ensures
        first_pair_error(pairs) == first_pair_error(pairs.subrange(0, n)),
    decreases pairs.len() - n,
{
    if n < pairs.len() {
        assert(pairs.subrange(0, n + 1).drop_last() == pairs.subrange(0, n));
        lemma_first_error_stays(pairs, n + 1);
    } else {
        assert(pairs.subrange(0, n) == pairs);
    }
}

/// A default never stands beside an override of the same name, whatever the
/// capitals.
pub proof fn law_overridden_defaults_are_dropped(
    defaults: Seq<(Seq<char>, Seq<char>)>,
    overrides: Seq<(Seq<char>, Seq<char>)>,
    i: int,
)
    requires
        0 <= i < not_overridden(defaults, overrides).len(),
    ensures
        !names(overrides, lower_ascii(not_overridden(defaults, overrides)[i].0)),
    decreases defaults.len(),
{
    if defaults.len() > 0 {
        let rest = not_overridden(defaults.drop_last(), overrides);
        if i < rest.len() {
            law_overridden_defaults_are_dropped(defaults.drop_last(), overrides, i);
        }
    }
}

/// Every other default is kept.
pub proof fn law_other_defaults_are_kept(
    defaults: Seq<(Seq<char>, Seq<char>)>,
    overrides: Seq<(Seq<char>, Seq<char>)>,
    i: int,
)
    requires
        0 <= i < defaults.len(),
        !names(overrides, lower_ascii(defaults[i].0)),
    ensures
        not_overridden(defaults, overrides).contains(defaults[i]),
    decreases defaults.len(),
{
    let rest = not_overridden(defaults.drop_last(), overrides);
    if i == defaults.len() - 1 {
        assert(rest.push(defaults.last()).last() == defaults[i]);
    } else {
        law_other_defaults_are_kept(defaults.drop_last(), overrides, i);
        let at = choose|at: int| 0 <= at < rest.len() && rest[at] == defaults[i];
        assert(rest.push(defaults.last())[at] == defaults[i]);
    }
}

/// A name that is overridden ends up with exactly one value, and that is the
/// value of the last override that has it.
pub proof fn law_override_holds_one_value(
    entries: Map<Seq<char>, Seq<(Seq<u8>, bool)>>,
    pairs: Seq<(Seq<char>, Seq<char>)>,
    i: int,
)
    requires
        0 <= i < pairs.len(),
        forall|k: int| i < k < pairs.len() ==> lower_ascii((#[trigger] pairs[k]).0) != lower_ascii(
            pairs[i].0,
        ),
    ensures
        with_pairs(entries, pairs).dom().contains(lower_ascii(pairs[i].0)),
        with_pairs(entries, pairs)[lower_ascii(pairs[i].0)] == seq![
            (encode_utf8(pairs[i].1), false),
        ],
    decreases pairs.len(),
{
    if i < pairs.len() - 1 {
        assert(lower_ascii(pairs[pairs.len() - 1].0) != lower_ascii(pairs[i].0));
        law_override_holds_one_value(entries, pairs.drop_last(), i);
    }
}

/// A pair that cannot be sent is refused by its name: for the name where that is none,
/// and otherwise for its value.
pub proof fn law_unsendable_pair_is_named(name: Seq<char>, value: Seq<char>)
    ensures
        !is_header_name(name) ==> pair_error((name, value)) == Some(
            "invalid http header name '"@ + name + "'"@,
        ),
        is_header_name(name) && !is_header_value(value) ==> pair_error((name, value)) == Some(
            "invalid http header value for '"@ + name + "'"@,
        ),
        is_header_name(name) && is_header_value(value) ==> pair_error((name, value)) is None,
{
}

/// The first pair that cannot be sent is the one that is told of.
pub proof fn law_first_unsendable_pair_is_told(
    pairs: Seq<(Seq<char>, Seq<char>)>,
    pair: (Seq<char>, Seq<char>),
)
    ensures
        first_pair_error(Seq::empty()) is None,
        first_pair_error(pairs) is Some ==> first_pair_error(pairs.push(pair)) == first_pair_error(
            pairs,
        ),
        first_pair_error(pairs) is None ==> first_pair_error(pairs.push(pair)) == pair_error(pair),
{
    assert(pairs.push(pair).drop_last() =~= pairs);
}

/// Names are kept in small letters, values as they are.
pub proof fn law_names_are_kept_in_small_letters(pairs: Seq<(Seq<char>, Seq<char>)>, i: int)
    requires
        0 <= i < pairs.len(),
    ensures
        small_names(pairs).len() == pairs.len(),
        small_names(pairs)[i].0 == lower_ascii(pairs[i].0),
        small_names(pairs)[i].1 == pairs[i].1,
{
}

/// Defaults that are not overridden stay in order.
pub proof fn law_defaults_stay_in_order(
    defaults: Seq<(Seq<char>, Seq<char>)>,
    overrides: Seq<(Seq<char>, Seq<char>)>,
    pair: (Seq<char>, Seq<char>),
)
    ensures
        not_overridden(Seq::empty(), overrides) == Seq::<(Seq<char>, Seq<char>)>::empty(),
        (exists|i: int|
            0 <= i < overrides.len() && (#[trigger] overrides[i]).0 == lower_ascii(pair.0))
            ==> not_overridden(defaults.push(pair), overrides) == not_overridden(
            defaults,
            overrides,
        ),
        (forall|i: int|
            0 <= i < overrides.len() ==> (#[trigger] overrides[i]).0 != lower_ascii(pair.0))
            ==> not_overridden(defaults.push(pair), overrides) == not_overridden(
            defaults,
            overrides,
        ).push(pair),
{
    assert(defaults.push(pair).drop_last() =~= defaults);
}

} // verus!
