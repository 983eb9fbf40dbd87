//! Values by name, and names in order.

use vstd::prelude::*;

use crate::text::{same_text, to_chars, views};

verus! {

/// Values, each under a name of its own.
#[derive(Debug)]
pub struct Keyed<V> {
    entries: Vec<(String, V)>,
}

/// What is known under each name.
pub closed spec fn table<V>(entries: Seq<(String, V)>) -> Map<Seq<char>, V>
    decreases entries.len(),
{
    if entries.len() == 0 {
        Map::empty()
    } else {
        table(entries.drop_last()).insert(entries.last().0@, entries.last().1)
    }
}

closed spec fn distinct<V>(entries: Seq<(String, V)>) -> bool {
    forall|i: int, j: int|
        0 <= i < j < entries.len() ==> (#[trigger] entries[i]).0@ != (#[trigger] entries[j]).0@
}

proof fn lemma_table_holds<V>(entries: Seq<(String, V)>, i: int)
    requires
        distinct(entries),
        0 <= i < entries.len(),
    ensures
        table(entries).dom().contains(entries[i].0@),
        table(entries)[entries[i].0@] == entries[i].1,
    decreases entries.len(),
{
    if i < entries.len() - 1 {
        lemma_table_holds(entries.drop_last(), i);
        assert(entries[i].0@ != entries[entries.len() - 1].0@);
    }
}

proof fn lemma_table_lacks<V>(entries: Seq<(String, V)>, key: Seq<char>)
    requires
        forall|i: int| 0 <= i < entries.len() ==> (#[trigger] entries[i]).0@ != key,
    ensures
        !table(entries).dom().contains(key),
    decreases entries.len(),
{
    if entries.len() > 0 {
        assert(entries[entries.len() - 1].0@ != key);
        lemma_table_lacks(entries.drop_last(), key);
    }
}

proof fn lemma_table_update<V>(entries: Seq<(String, V)>, i: int, entry: (String, V))
    requires
        distinct(entries),
        0 <= i < entries.len(),
        entry.0@ == entries[i].0@,
    ensures
        distinct(entries.update(i, entry)),
        table(entries.update(i, entry)) == table(entries).insert(entry.0@, entry.1),
    decreases entries.len(),
{
    let changed = entries.update(i, entry);
    if i == entries.len() - 1 {
        assert(changed.drop_last() =~= entries.drop_last());
        assert(table(changed) =~= table(entries).insert(entry.0@, entry.1));
    } else {
        assert(changed.drop_last() =~= entries.drop_last().update(i, entry));
        lemma_table_update(entries.drop_last(), i, entry);
        assert(entries[i].0@ != entries[entries.len() - 1].0@);
        assert(table(changed) =~= table(entries).insert(entry.0@, entry.1));
    }
}

impl<V> View for Keyed<V> {
    type V = Map<Seq<char>, V>;

    closed spec fn view(&self) -> Map<Seq<char>, V> {
        table(self.entries@)
    }
}

impl<V> Keyed<V> {
    #[verifier::type_invariant]
    closed spec fn has_distinct_keys(self) -> bool {
        distinct(self.entries@)
    }

    pub fn new() -> (keyed: Keyed<V>)
        ensures
            keyed@ == Map::<Seq<char>, V>::empty(),
    {
        Keyed { entries: Vec::new() }
    }

    fn position(&self, key: &str) -> (at: Option<usize>)
        ensures
            match at {
                Some(at) => at < self.entries@.len() && self.entries@[at as int].0@ == key@
                    && self@.dom().contains(key@) && self@[key@] == self.entries@[at as int].1,
                None => !self@.dom().contains(key@) && forall|k: int|
                    0 <= k < self.entries@.len() ==> (#[trigger] self.entries@[k]).0@ != key@,
            },
    {
        proof {
            use_type_invariant(self);
        }
        let mut i: usize = 0;
        while i < self.entries.len()
            invariant
                distinct(self.entries@),
                i <= self.entries.len(),
                forall|k: int| 0 <= k < i ==> (#[trigger] self.entries@[k]).0@ != key@,
            decreases self.entries.len() - i,
        {
            if same_text(&self.entries[i].0, key) {
                proof {
                    lemma_table_holds(self.entries@, i as int);
                }
                return Some(i);
            }
            i += 1;
        }
        proof {
            lemma_table_lacks(self.entries@, key@);
        }
        None
    }

    /// The value under a name.
    pub fn get(&self, key: &str) -> (value: Option<&V>)
        ensures
            match value {
                Some(value) => self@.dom().contains(key@) && self@[key@] == *value,
                None => !self@.dom().contains(key@),
            },
    {
        match self.position(key) {
            Some(at) => Some(&self.entries[at].1),
            None => None,
        }
    }

    /// Puts a value under a name, in place of what stood there.
    pub fn insert(&mut self, key: &str, value: V)
        ensures
            final(self)@ == old(self)@.insert(key@, value),
    {
        let at = self.position(key);
        proof {
            use_type_invariant(&*self);
        }
        let ghost before = self.entries@;
        let mut entries: Vec<(String, V)> = Vec::new();
        std::mem::swap(&mut entries, &mut self.entries);
        let entry = (key.to_owned(), value);
        match at {
            Some(at) => {
                proof {
                    lemma_table_update(before, at as int, entry);
                }
                entries.set(at, entry);
            },
            None => {
                entries.push(entry);
                assert(entries@.drop_last() =~= before);
                assert(distinct(entries@));
            },
        }
        self.entries = entries;
    }

    /// The names in ascending order.
    pub fn sorted_keys(&self) -> (keys: Vec<String>)
        ensures
            is_ascending(views(keys@)),
            forall|key: Seq<char>|
                #![trigger views(keys@).contains(key)]
                self@.dom().contains(key) <==> views(keys@).contains(key),
    {
        proof {
            use_type_invariant(self);
        }
        let ghost all = self.entries@;
        let mut keys: Vec<String> = Vec::new();
        let mut i: usize = 0;
        assert(all.subrange(0, 0) =~= Seq::empty());
        while i < self.entries.len()
            invariant
                all == self.entries@,
                distinct(all),
                i <= self.entries.len(),
                is_ascending(views(keys@)),
                forall|key: Seq<char>|
                    #![trigger views(keys@).contains(key)]
                    table(all.subrange(0, i as int)).dom().contains(key) <==> views(keys@).contains(
                        key,
                    ),
            decreases self.entries.len() - i,
        {
            let ghost so_far = all.subrange(0, i as int);
            let ghost next = all.subrange(0, i + 1);
            assert(next.drop_last() =~= so_far);
            let key = &self.entries[i].0;
            proof {
                assert forall|k: int| 0 <= k < so_far.len() implies (#[trigger] so_far[k]).0@
                    != key@ by {
                    assert(all[k].0@ != all[i as int].0@);
                }
                lemma_table_lacks(so_far, key@);
            }
            insert_in_order(&mut keys, key);
            i += 1;
        }
        assert(all.subrange(0, i as int) =~= all);
        keys
    }
}

/// The dictionary order of texts, by the code points of their characters.
pub open spec fn text_less(a: Seq<char>, b: Seq<char>) -> bool
    decreases a.len(),
{
    if b.len() == 0 {
        false
    } else if a.len() == 0 {
        true
    } else if a[0] == b[0] {
        text_less(a.drop_first(), b.drop_first())
    } else {
        a[0] < b[0]
    }
}

pub open spec fn is_ascending(keys: Seq<Seq<char>>) -> bool {
    forall|i: int, j: int|
        0 <= i < j < keys.len() ==> text_less(#[trigger] keys[i], #[trigger] keys[j])
}

proof fn lemma_less_total(a: Seq<char>, b: Seq<char>)
    requires
        a != b,
    ensures
        text_less(a, b) || text_less(b, a),
    decreases a.len(),
{
    if a.len() == 0 {
        assert(b.len() > 0) by {
            if b.len() == 0 {
                assert(a =~= b);
            }
        }
    } else if b.len() > 0 && a[0] == b[0] {
        if a.drop_first() == b.drop_first() {
            assert(a =~= seq![a[0]] + a.drop_first());
            assert(b =~= seq![b[0]] + b.drop_first());
        }
        lemma_less_total(a.drop_first(), b.drop_first());
    }
}

proof fn lemma_less_transitive(a: Seq<char>, b: Seq<char>, c: Seq<char>)
    requires
        text_less(a, b),
        text_less(b, c),
    ensures
        text_less(a, c),
    decreases a.len(),
{
    if a.len() > 0 && b.len() > 0 && c.len() > 0 && a[0] == b[0] && b[0] == c[0] {
        lemma_less_transitive(a.drop_first(), b.drop_first(), c.drop_first());
    }
}

fn is_less(a: &str, b: &str) -> (less: bool)
    ensures
        less == text_less(a@, b@),
{
    let left = to_chars(a);
    let right = to_chars(b);
    let mut i: usize = 0;
    assert(left@.subrange(0, left@.len() as int) =~= left@);
    assert(right@.subrange(0, right@.len() as int) =~= right@);
    loop
        invariant
            left@ == a@,
            right@ == b@,
            i <= left.len(),
            i <= right.len(),
            text_less(a@, b@) == text_less(
                a@.subrange(i as int, a@.len() as int),
                b@.subrange(i as int, b@.len() as int),
            ),
        decreases left.len() - i,
    {
        let ghost x = a@.subrange(i as int, a@.len() as int);
        let ghost y = b@.subrange(i as int, b@.len() as int);
        if i == right.len() {
            return false;
        }
        if i == left.len() {
            return true;
        }
        assert(x[0] == left[i as int] && y[0] == right[i as int]);
        if left[i] != right[i] {
            return left[i] < right[i];
        }
        assert(x.drop_first() =~= a@.subrange(i + 1, a@.len() as int));
        assert(y.drop_first() =~= b@.subrange(i + 1, b@.len() as int));
        i += 1;
    }
}

/// Puts a name where it belongs among names in order.
fn insert_in_order(keys: &mut Vec<String>, key: &str)
    requires
        is_ascending(views(old(keys)@)),
        !views(old(keys)@).contains(key@),
    ensures
        is_ascending(views(final(keys)@)),
        forall|other: Seq<char>|
            #![trigger views(final(keys)@).contains(other)]
            views(final(keys)@).contains(other) <==> other == key@ || views(old(keys)@).contains(
                other,
            ),
{
    let ghost before = views(keys@);
    let mut at: usize = 0;
    while at < keys.len() && is_less(&keys[at], key)
        invariant
            before == views(keys@),
            at <= keys.len(),
            forall|k: int| 0 <= k < at ==> text_less(#[trigger] before[k], key@),
        decreases keys.len() - at,
    {
        assert(before[at as int] == keys@[at as int]@);
        at += 1;
    }
    proof {
        if at < keys.len() {
            assert(before[at as int] == keys@[at as int]@);
            assert(before.contains(before[at as int]));
            lemma_less_total(before[at as int], key@);
            assert(text_less(key@, before[at as int]));
        }
    }
    keys.insert(at, key.to_owned());
    let ghost after = views(keys@);
    proof {
        assert(after =~= before.insert(at as int, key@));
        assert forall|i: int, j: int| 0 <= i < j < after.len() implies text_less(
            #[trigger] after[i],
            #[trigger] after[j],
        ) by {
            let place = at as int;
            if i == place {
                assert(after[j] == before[j - 1]);
                if j - 1 > place {
                    lemma_less_transitive(key@, before[place], before[j - 1]);
                }
            } else if j == place {
                assert(after[i] == before[i]);
            } else {
                let x = if i < place {
                    i
                } else {
                    i - 1
                };
                let y = if j < place {
                    j
                } else {
                    j - 1
                };
                assert(after[i] == before[x] && after[j] == before[y]);
            }
        }
        assert forall|other: Seq<char>| #[trigger] after.contains(other) <==> other == key@
            || before.contains(other) by {
            if after.contains(other) {
                let i = choose|i: int| 0 <= i < after.len() && after[i] == other;
                if i < at {
                    assert(before[i] == other);
                } else if i > at {
                    assert(before[i - 1] == other);
                }
            }
            if before.contains(other) {
                let i = choose|i: int| 0 <= i < before.len() && before[i] == other;
                if i < at {
                    assert(after[i] == other);
                } else {
                    assert(after[i + 1] == other);
                }
            }
            if other == key@ {
                assert(after[at as int] == other);
            }
        }
    }
}

/// Texts are ordered by the first character in which they differ, and a text stands
/// before every longer one that begins with it.
pub proof fn law_first_difference_orders(common: Seq<char>, a: Seq<char>, b: Seq<char>)
    ensures
        a.len() > 0 && b.len() > 0 && a[0] < b[0] ==> text_less(common + a, common + b)
            && !text_less(common + b, common + a),
        b.len() > 0 ==> text_less(common, common + b) && !text_less(common + b, common),
        !text_less(common, common),
    decreases common.len(),
{
    if common.len() == 0 {
        assert(common + a =~= a);
        assert(common + b =~= b);
    } else {
        law_first_difference_orders(common.drop_first(), a, b);
        assert((common + a).drop_first() =~= common.drop_first() + a);
        assert((common + b).drop_first() =~= common.drop_first() + b);
    }
}

} // verus!
