//! Maps and sets keyed by names, kept in the order of their keys.
use vstd::prelude::*;

verus! {

/// `a` comes before `b` in the lexicographic order of their characters.
pub open spec fn seq_less(a: Seq<char>, b: Seq<char>) -> bool
    decreases a.len(),
{
    if a.len() == 0 {
        b.len() > 0
    } else if b.len() == 0 {
        false
    } else if a[0] != b[0] {
        (a[0] as int) < (b[0] as int)
    } else {
        seq_less(a.drop_first(), b.drop_first())
    }
}

/// No name comes before itself.
pub proof fn lemma_less_irreflexive(a: Seq<char>)
    ensures
        !seq_less(a, a),
    decreases a.len(),
{
    if a.len() > 0 {
        lemma_less_irreflexive(a.drop_first());
    }
}

/// Of two different names, one comes before the other, and not both ways.
pub proof fn lemma_less_total(a: Seq<char>, b: Seq<char>)
    ensures
        a != b ==> seq_less(a, b) || seq_less(b, a),
        !(seq_less(a, b) && seq_less(b, a)),
    decreases a.len(),
{
    if a.len() > 0 && b.len() > 0 {
        if a[0] == b[0] {
            lemma_less_total(a.drop_first(), b.drop_first());
            if a != b {
                assert(a.drop_first() != b.drop_first()) by {
                    if a.drop_first() == b.drop_first() {
                        assert(a =~= seq![a[0]] + a.drop_first());
                        assert(b =~= seq![b[0]] + b.drop_first());
                    }
                }
            }
        } else {
            assert((a[0] as int) != (b[0] as int));
        }
    } else if a.len() == 0 && b.len() == 0 {
        assert(a =~= b);
    }
}

/// The order is transitive.
pub proof fn lemma_less_transitive(a: Seq<char>, b: Seq<char>, c: Seq<char>)
    requires
        seq_less(a, b),
        seq_less(b, c),
    ensures
        seq_less(a, c),
    decreases a.len(),
{
    if a.len() > 0 && b.len() > 0 && c.len() > 0 {
        if a[0] == b[0] && b[0] == c[0] {
            lemma_less_transitive(a.drop_first(), b.drop_first(), c.drop_first());
        }
    }
}

/// Names that agree on their first `i` characters compare as the rest
/// of them does.
pub proof fn lemma_less_skip(a: Seq<char>, b: Seq<char>, i: int)
    requires
        0 <= i <= a.len(),
        i <= b.len(),
        a.take(i) == b.take(i),
    ensures
        seq_less(a, b) == seq_less(a.skip(i), b.skip(i)),
    decreases i,
{
    if i > 0 {
        assert(a[0] == a.take(i)[0]);
        assert(b[0] == b.take(i)[0]);
        assert(a.drop_first().take(i - 1) =~= a.take(i).drop_first());
        assert(b.drop_first().take(i - 1) =~= b.take(i).drop_first());
        lemma_less_skip(a.drop_first(), b.drop_first(), i - 1);
        assert(a.drop_first().skip(i - 1) =~= a.skip(i));
        assert(b.drop_first().skip(i - 1) =~= b.skip(i));
    } else {
        assert(a.skip(0) =~= a);
        assert(b.skip(0) =~= b);
    }
}

/// Whether `a` comes before `b` in the order of their characters.
pub fn str_less(a: &str, b: &str) -> (r: bool)
    ensures
        r == seq_less(a@, b@),
{
    let n = a.unicode_len();
    let m = b.unicode_len();
    let mut i: usize = 0;
    while i < n && i < m
        invariant
            n == a@.len(),
            m == b@.len(),
            i <= n,
            i <= m,
            a@.take(i as int) == b@.take(i as int),
        decreases n - i,
    {
        let x = a.get_char(i);
        let y = b.get_char(i);
        if x != y {
            proof {
                lemma_less_skip(a@, b@, i as int);
                assert(a@.skip(i as int)[0] == x);
                assert(b@.skip(i as int)[0] == y);
            }
            return (x as u32) < (y as u32);
        }
        proof {
            assert(a@.take(i + 1) =~= a@.take(i as int).push(x));
            assert(b@.take(i + 1) =~= b@.take(i as int).push(y));
        }
        i = i + 1;
    }
    proof {
        lemma_less_skip(a@, b@, i as int);
    }
    i == n && i < m
}

/// The keys of `entries` are in strictly increasing order.
pub open spec fn keys_sorted<V>(entries: Seq<(String, V)>) -> bool {
    forall|i: int, j: int|
        0 <= i < j < entries.len() ==> seq_less(#[trigger] entries[i].0@, #[trigger] entries[j].0@)
}

/// The position of the entry with key `key`.
pub open spec fn index_of<V>(entries: Seq<(String, V)>, key: Seq<char>) -> Option<int>
    decreases entries.len(),
{
    if entries.len() == 0 {
        None
    } else {
        match index_of(entries.drop_last(), key) {
            Some(i) => Some(i),
            None => if entries.last().0@ == key {
                Some(entries.len() - 1)
            } else {
                None
            },
        }
    }
}

/// What `index_of` finds: an entry with that key and none before it.
pub proof fn lemma_index_of<V>(entries: Seq<(String, V)>, key: Seq<char>)
    ensures
        match index_of(entries, key) {
            Some(i) => 0 <= i < entries.len() && entries[i].0@ == key && forall|j: int|
                0 <= j < i ==> entries[j].0@ != key,
            None => forall|j: int| 0 <= j < entries.len() ==> entries[j].0@ != key,
        },
    decreases entries.len(),
{
    if entries.len() > 0 {
        lemma_index_of(entries.drop_last(), key);
        assert forall|j: int| 0 <= j < entries.len() - 1 implies entries[j]
            == entries.drop_last()[j] by {}
    }
}

/// An entry with that key and none before it is the one `index_of` gives.
pub proof fn lemma_index_of_unique<V>(entries: Seq<(String, V)>, key: Seq<char>, i: int)
    requires
        0 <= i < entries.len(),
        entries[i].0@ == key,
        forall|j: int| 0 <= j < i ==> entries[j].0@ != key,
    ensures
        index_of(entries, key) == Some(i),
{
    lemma_index_of(entries, key);
}

/// In sorted entries, the entry with a key is the only one with it.
pub proof fn lemma_index_of_sorted<V>(entries: Seq<(String, V)>, key: Seq<char>, i: int)
    requires
        keys_sorted(entries),
        0 <= i < entries.len(),
        entries[i].0@ == key,
    ensures
        index_of(entries, key) == Some(i),
{
    assert forall|j: int| 0 <= j < i implies entries[j].0@ != key by {
        lemma_less_irreflexive(key);
    }
    lemma_index_of_unique(entries, key, i);
}

/// A map from names to values, iterated in the order of the names.
#[derive(Debug)]
pub struct NameMap<V> {
    entries: Vec<(String, V)>,
}

impl<V> NameMap<V> {
    #[verifier::type_invariant]
    spec fn sorted(self) -> bool {
        keys_sorted(self.entries@)
    }

    /// The entries, in increasing order of their keys.
    pub closed spec fn spec_entries(&self) -> Seq<(String, V)> {
        self.entries@
    }

    /// The value stored under `key`, if any.
    pub open spec fn spec_get(&self, key: Seq<char>) -> Option<V> {
        entry_get(self.spec_entries(), key)
    }

    /// Whether a value is stored under `key`.
    pub open spec fn spec_contains(&self, key: Seq<char>) -> bool {
        index_of(self.spec_entries(), key) is Some
    }

    /// An empty map.
    pub fn new() -> (r: Self)
        ensures
            r.spec_entries() == Seq::<(String, V)>::empty(),
    {
        NameMap { entries: Vec::new() }
    }

    /// The entries, in increasing order of their keys.
    pub fn entries(&self) -> (r: &Vec<(String, V)>)
        ensures
            r@ == self.spec_entries(),
            keys_sorted(r@),
    {
        proof {
            use_type_invariant(self);
        }
        &self.entries
    }

    /// The number of entries.
    pub fn len(&self) -> (r: usize)
        ensures
            r == self.spec_entries().len(),
    {
        self.entries.len()
    }

    /// The position of the first entry whose key is not before `key`.
    fn lower_bound(&self, key: &str) -> (r: usize)
        ensures
            r <= self.spec_entries().len(),
            forall|j: int| 0 <= j < r ==> seq_less(#[trigger] self.spec_entries()[j].0@, key@),
            r < self.spec_entries().len() ==> !seq_less(self.spec_entries()[r as int].0@, key@),
    {
        proof {
            use_type_invariant(self);
        }
        let mut i: usize = 0;
        while i < self.entries.len()
            invariant
                i <= self.entries@.len(),
                forall|j: int| 0 <= j < i ==> seq_less(#[trigger] self.entries@[j].0@, key@),
            decreases self.entries@.len() - i,
        {
            if !str_less(self.entries[i].0.as_str(), key) {
                return i;
            }
            i = i + 1;
        }
        i
    }

    /// The position of the entry with key `key`, if any.
    pub fn position(&self, key: &str) -> (r: Option<usize>)
        ensures
            match r {
                Some(i) => index_of(self.spec_entries(), key@) == Some(i as int),
                None => index_of(self.spec_entries(), key@) is None,
            },
    {
        proof {
            use_type_invariant(self);
        }
        let p = self.lower_bound(key);
        if p < self.entries.len() && crate::text::str_eq(self.entries[p].0.as_str(), key) {
            proof {
                lemma_index_of_sorted(self.entries@, key@, p as int);
            }
            Some(p)
        } else {
            proof {
                lemma_index_of(self.entries@, key@);
                assert forall|j: int| 0 <= j < self.entries@.len() implies self.entries@[j].0@
                    != key@ by {
                    lemma_less_irreflexive(key@);
                    if j > p as int {
                        if self.entries@[j].0@ == key@ {
                            lemma_less_total(self.entries@[p as int].0@, key@);
                        }
                    }
                }
            }
            None
        }
    }

    /// The value stored under `key`, if any.
    pub fn get(&self, key: &str) -> (r: Option<&V>)
        ensures
            match self.spec_get(key@) {
                Some(v) => r == Some(&v),
                None => r is None,
            },
    {
        proof {
            lemma_index_of(self.entries@, key@);
        }
        match self.position(key) {
            Some(i) => Some(&self.entries[i].1),
            None => None,
        }
    }

    /// Whether a value is stored under `key`.
    pub fn contains_key(&self, key: &str) -> (r: bool)
        ensures
            r == self.spec_contains(key@),
    {
        self.position(key).is_some()
    }

    /// Stores `value` under `key`, in place of the value stored there
    /// before, if any.
    pub fn insert(&mut self, key: String, value: V)
        ensures
            final(self).spec_entries() == insert_entry(old(self).spec_entries(), key, value),
    {
        proof {
            use_type_invariant(&*self);
        }
        let p = self.lower_bound(key.as_str());
        let ghost before = self.entries@;
        let present = p < self.entries.len() && crate::text::str_eq(
            self.entries[p].0.as_str(),
            key.as_str(),
        );
        let mut entries: Vec<(String, V)> = Vec::new();
        std::mem::swap(&mut entries, &mut self.entries);
        proof {
            lemma_index_of(before, key@);
        }
        if present {
            proof {
                lemma_index_of_sorted(before, key@, p as int);
            }
            let ghost new_entry = (key, value);
            entries.set(p, (key, value));
            proof {
                assert(entries@ == before.update(p as int, new_entry));
                assert forall|i: int, j: int| 0 <= i < j < entries@.len() implies seq_less(
                    #[trigger] entries@[i].0@,
                    #[trigger] entries@[j].0@,
                ) by {
                    assert(before[i].0@ == entries@[i].0@) by {
                        if i == p as int {
                        }
                    }
                    assert(before[j].0@ == entries@[j].0@) by {
                        if j == p as int {
                        }
                    }
                }
            }
        } else {
            proof {
                assert forall|j: int| 0 <= j < before.len() implies before[j].0@ != key@ by {
                    lemma_less_irreflexive(key@);
                    if j > p as int {
                        if before[j].0@ == key@ {
                            lemma_less_total(before[p as int].0@, key@);
                        }
                    }
                }
                lemma_index_of(before, key@);
                lemma_insert_position(before, key@, p as int);
            }
            let ghost new_entry = (key, value);
            entries.insert(p, (key, value));
            proof {
                assert(entries@ == before.insert(p as int, new_entry));
                assert forall|j: int| p <= j < before.len() implies seq_less(
                    key@,
                    #[trigger] before[j].0@,
                ) by {
                    lemma_less_total(before[p as int].0@, key@);
                    if j > p as int {
                        lemma_less_transitive(key@, before[p as int].0@, before[j].0@);
                    }
                }
                assert forall|i: int, j: int| 0 <= i < j < entries@.len() implies seq_less(
                    #[trigger] entries@[i].0@,
                    #[trigger] entries@[j].0@,
                ) by {
                    if i < p && j == p {
                    } else if i < p && j > p {
                        assert(entries@[j] == before[j - 1]);
                        lemma_less_transitive(before[i].0@, key@, before[j - 1].0@);
                    } else if i == p {
                        assert(entries@[j] == before[j - 1]);
                    } else if i > p {
                        assert(entries@[i] == before[i - 1]);
                        assert(entries@[j] == before[j - 1]);
                    }
                }
            }
        }
        self.entries = entries;
    }
}

/// The entries after storing `value` under `key`: the entry with that key
/// gets the new value, or a new entry comes in at its place in the order.
pub open spec fn insert_entry<V>(entries: Seq<(String, V)>, key: String, value: V) -> Seq<
    (String, V),
> {
    match index_of(entries, key@) {
        Some(i) => entries.update(i, (key, value)),
        None => entries.insert(insert_position(entries, key@), (key, value)),
    }
}

/// The number of keys that come before `key`.
pub open spec fn insert_position<V>(entries: Seq<(String, V)>, key: Seq<char>) -> int
    decreases entries.len(),
{
    if entries.len() == 0 {
        0
    } else if seq_less(entries.last().0@, key) {
        entries.len() as int
    } else {
        insert_position(entries.drop_last(), key)
    }
}

/// The value of the entry with key `key`, if any.
pub open spec fn entry_get<V>(entries: Seq<(String, V)>, key: Seq<char>) -> Option<V> {
    match index_of(entries, key) {
        Some(i) => Some(entries[i].1),
        None => None,
    }
}

/// The new entry's place is within the entries.
pub proof fn lemma_insert_position_range<V>(entries: Seq<(String, V)>, key: Seq<char>)
    ensures
        0 <= insert_position(entries, key) <= entries.len(),
    decreases entries.len(),
{
    if entries.len() > 0 {
        lemma_insert_position_range(entries.drop_last(), key);
    }
}

/// Storing under a key that has an entry keeps the number of entries;
/// storing under a new key adds one.
pub proof fn lemma_insert_entry_len<V>(entries: Seq<(String, V)>, key: String, value: V)
    ensures
        insert_entry(entries, key, value).len() == if index_of(entries, key@) is Some {
            entries.len()
        } else {
            entries.len() + 1
        },
{
    lemma_index_of(entries, key@);
    lemma_insert_position_range(entries, key@);
}

/// Reading a key back after storing a value under it gives that value, and
/// other keys keep what they had.
pub proof fn lemma_get_after_insert<V>(
    entries: Seq<(String, V)>,
    key: String,
    value: V,
    other: Seq<char>,
)
    ensures
        entry_get(insert_entry(entries, key, value), key@) == Some(value),
        other != key@ ==> entry_get(insert_entry(entries, key, value), other) == entry_get(
            entries,
            other,
        ),
{
    let after = insert_entry(entries, key, value);
    lemma_index_of(entries, key@);
    lemma_index_of(entries, other);
    match index_of(entries, key@) {
        Some(i) => {
            lemma_index_of_unique(after, key@, i);
            if other != key@ {
                match index_of(entries, other) {
                    Some(k) => lemma_index_of_unique(after, other, k),
                    None => {
                        lemma_index_of(after, other);
                    },
                }
            }
        },
        None => {
            let p = insert_position(entries, key@);
            lemma_insert_position_range(entries, key@);
            assert(after == entries.insert(p, (key, value)));
            assert forall|j: int| 0 <= j < p implies after[j].0@ != key@ by {
                assert(after[j] == entries[j]);
            }
            lemma_index_of_unique(after, key@, p);
            if other != key@ {
                match index_of(entries, other) {
                    Some(k) => {
                        if k < p {
                            assert(after[k] == entries[k]);
                            assert forall|j: int| 0 <= j < k implies after[j].0@ != other by {
                                assert(after[j] == entries[j]);
                            }
                            lemma_index_of_unique(after, other, k);
                        } else {
                            assert(after[k + 1] == entries[k]);
                            assert forall|j: int| 0 <= j < k + 1 implies after[j].0@ != other by {
                                if j < p {
                                    assert(after[j] == entries[j]);
                                } else if j > p {
                                    assert(after[j] == entries[j - 1]);
                                }
                            }
                            lemma_index_of_unique(after, other, k + 1);
                        }
                    },
                    None => {
                        assert forall|j: int| 0 <= j < after.len() implies after[j].0@ != other by {
                            if j < p {
                                assert(after[j] == entries[j]);
                            } else if j > p {
                                assert(after[j] == entries[j - 1]);
                            }
                        }
                        lemma_index_of(after, other);
                    },
                }
            }
        },
    }
}

/// In sorted entries, the new entry's place is after every key that comes
/// before it and before every other key.
pub proof fn lemma_insert_position<V>(entries: Seq<(String, V)>, key: Seq<char>, p: int)
    requires
        keys_sorted(entries),
        0 <= p <= entries.len(),
        forall|j: int| 0 <= j < p ==> seq_less(#[trigger] entries[j].0@, key),
        p < entries.len() ==> !seq_less(entries[p].0@, key),
    ensures
        insert_position(entries, key) == p,
    decreases entries.len(),
{
    if entries.len() > 0 {
        if p == entries.len() {
        } else {
            let last = entries.len() - 1;
            if seq_less(entries[last].0@, key) {
                if p < last {
                    lemma_less_transitive(entries[p].0@, entries[last].0@, key);
                }
            }
            assert forall|i: int, j: int| 0 <= i < j < entries.drop_last().len() implies seq_less(
                #[trigger] entries.drop_last()[i].0@,
                #[trigger] entries.drop_last()[j].0@,
            ) by {
                assert(entries.drop_last()[i] == entries[i]);
                assert(entries.drop_last()[j] == entries[j]);
            }
            assert forall|j: int| 0 <= j < p implies seq_less(
                #[trigger] entries.drop_last()[j].0@,
                key,
            ) by {
                assert(entries.drop_last()[j] == entries[j]);
            }
            if p < entries.len() - 1 {
                assert(entries.drop_last()[p] == entries[p]);
            }
            lemma_insert_position(entries.drop_last(), key, p);
        }
    }
}

} // verus!
