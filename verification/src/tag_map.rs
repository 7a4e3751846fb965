//! Tags of a fic, grouped by category: an ordered map from category name to tag values.
use vstd::prelude::*;
use crate::text::str_eq;

verus! {

/// The abstract content of a tag map: its (category, values) entries in order.
pub type TagEntries = Seq<(Seq<char>, Seq<Seq<char>>)>;

/// The values stored under `key`, if any.
pub open spec fn lookup(entries: TagEntries, key: Seq<char>) -> Option<Seq<Seq<char>>>
    decreases entries.len(),
{
    if entries.len() == 0 {
        None
    } else if entries.last().0 == key {
        Some(entries.last().1)
    } else {
        lookup(entries.drop_last(), key)
    }
}

/// No category occurs twice.
pub open spec fn keys_distinct(entries: TagEntries) -> bool {
    forall|i: int, j: int|
        0 <= i < entries.len() && 0 <= j < entries.len() && i != j ==> #[trigger] entries[i].0
            != #[trigger] entries[j].0
}

/// The index of the entry for `key`, if there is one.
pub open spec fn index_of_key(entries: TagEntries, key: Seq<char>) -> int
    decreases entries.len(),
{
    if entries.len() == 0 {
        -1
    } else if entries.last().0 == key {
        entries.len() - 1
    } else {
        index_of_key(entries.drop_last(), key)
    }
}

/// `entries` with the values of `key` set to `values`: replaced in place when
/// the key is present, appended as a new entry otherwise.
pub open spec fn insert_entry(entries: TagEntries, key: Seq<char>, values: Seq<Seq<char>>) -> TagEntries {
    let k = index_of_key(entries, key);
    if k >= 0 {
        entries.update(k, (key, values))
    } else {
        entries.push((key, values))
    }
}

/// `entries` with `value` appended to the values of `key`, the key being
/// added with no values first when it is absent.
pub open spec fn push_value_entry(entries: TagEntries, key: Seq<char>, value: Seq<char>) -> TagEntries {
    let current = match lookup(entries, key) {
        Some(v) => v,
        None => Seq::<Seq<char>>::empty(),
    };
    insert_entry(entries, key, current.push(value))
}

/// All values of all entries, entry after entry.
pub open spec fn all_values(entries: TagEntries) -> Seq<Seq<char>>
    decreases entries.len(),
{
    if entries.len() == 0 {
        seq![]
    } else {
        all_values(entries.drop_last()) + entries.last().1
    }
}

/// `base` with each entry of `es` inserted in order.
pub open spec fn inserted_all(base: TagEntries, es: TagEntries) -> TagEntries
    decreases es.len(),
{
    if es.len() == 0 {
        base
    } else {
        let e = es.last();
        insert_entry(inserted_all(base, es.drop_last()), e.0, e.1)
    }
}

/// Law: the values of a map with one more category are the values of the
/// map followed by that category's values, all of them.
pub proof fn law_all_values_push(entries: TagEntries, e: (Seq<char>, Seq<Seq<char>>))
    ensures
        all_values(entries.push(e)) == all_values(entries) + e.1,
        all_values(entries.push(e)).len() == all_values(entries).len() + e.1.len(),
{
    assert(entries.push(e).drop_last() =~= entries);
}

/// Law: the values of two maps laid end to end are the values of the first
/// followed by the values of the second.
pub proof fn law_all_values_concat(a: TagEntries, b: TagEntries)
    ensures
        all_values(a + b) == all_values(a) + all_values(b),
    decreases b.len(),
{
    if b.len() == 0 {
        assert(a + b =~= a);
        assert(all_values(a) + all_values(b) =~= all_values(a));
    } else {
        let bp = b.drop_last();
        law_all_values_concat(a, bp);
        law_all_values_push(a + bp, b.last());
        law_all_values_push(bp, b.last());
        assert((a + bp).push(b.last()) =~= a + b);
        assert(bp.push(b.last()) =~= b);
        assert(all_values(a) + all_values(bp) + b.last().1 =~= all_values(a) + (all_values(bp) + b.last().1));
    }
}

/// Law: every value of every category occurs among all the values, each
/// category's values standing together, in order, after those of the
/// categories before it.
pub proof fn law_all_values_contains(entries: TagEntries, i: int)
    requires
        0 <= i < entries.len(),
    ensures
        all_values(entries).subrange(
            all_values(entries.take(i)).len() as int,
            (all_values(entries.take(i)).len() + entries[i].1.len()) as int,
        ) == entries[i].1,
        forall|j: int| 0 <= j < entries[i].1.len() ==> all_values(entries).contains(#[trigger] entries[i].1[j]),
{
    let pre = entries.take(i);
    let rest = entries.skip(i + 1);
    law_all_values_concat(pre.push(entries[i]), rest);
    law_all_values_push(pre, entries[i]);
    assert(pre.push(entries[i]) + rest =~= entries);
    let n = all_values(pre).len() as int;
    let whole = all_values(entries);
    assert(whole =~= all_values(pre) + entries[i].1 + all_values(rest));
    assert(whole.subrange(n, n + entries[i].1.len()) =~= entries[i].1);
    assert forall|j: int| 0 <= j < entries[i].1.len() implies whole.contains(#[trigger] entries[i].1[j]) by {
        assert(whole[n + j] == entries[i].1[j]);
    }
}

/// Inserting entries without repeated keys into an empty map gives those entries.
pub proof fn lemma_inserted_all_distinct(es: TagEntries)
    requires
        keys_distinct(es),
    ensures
        inserted_all(TagEntries::empty(), es) == es,
    decreases es.len(),
{
    if es.len() > 0 {
        let pre = es.drop_last();
        assert(keys_distinct(pre)) by {
            assert forall|a: int, b: int|
                0 <= a < pre.len() && 0 <= b < pre.len() && a != b implies #[trigger] pre[a].0
                != #[trigger] pre[b].0 by {
                assert(pre[a] == es[a] && pre[b] == es[b]);
            }
        }
        lemma_inserted_all_distinct(pre);
        let e = es.last();
        lemma_index_of_key(pre, e.0);
        if index_of_key(pre, e.0) >= 0 {
            let k = index_of_key(pre, e.0);
            assert(pre[k] == es[k]);
            assert(es[es.len() - 1].0 == e.0);
        }
        assert(pre.push(e) =~= es);
    }
}

/// `index_of_key` finds the last entry of a key, the one that `lookup` reads,
/// and is negative exactly when the key is absent.
pub proof fn lemma_index_of_key(entries: TagEntries, key: Seq<char>)
    ensures
        -1 <= index_of_key(entries, key) < entries.len(),
        index_of_key(entries, key) >= 0 ==> entries[index_of_key(entries, key)].0 == key
            && lookup(entries, key) == Some(entries[index_of_key(entries, key)].1),
        index_of_key(entries, key) < 0 <==> lookup(entries, key) is None,
        index_of_key(entries, key) < 0 ==> forall|i: int|
            0 <= i < entries.len() ==> #[trigger] entries[i].0 != key,
    decreases entries.len(),
{
    if entries.len() > 0 {
        lemma_index_of_key(entries.drop_last(), key);
        if index_of_key(entries, key) < 0 {
            assert forall|i: int| 0 <= i < entries.len() implies #[trigger] entries[i].0 != key by {
                if i < entries.len() - 1 {
                    assert(entries.drop_last()[i] == entries[i]);
                }
            }
        }
    }
}

/// In a map without repeated keys, the entry at `i` is what `lookup` finds for its key.
pub proof fn lemma_lookup_at(entries: TagEntries, i: int)
    requires
        keys_distinct(entries),
        0 <= i < entries.len(),
    ensures
        lookup(entries, entries[i].0) == Some(entries[i].1),
        index_of_key(entries, entries[i].0) == i,
    decreases entries.len(),
{
    if i < entries.len() - 1 {
        let pre = entries.drop_last();
        assert(pre[i] == entries[i]);
        assert(keys_distinct(pre)) by {
            assert forall|a: int, b: int|
                0 <= a < pre.len() && 0 <= b < pre.len() && a != b implies #[trigger] pre[a].0
                != #[trigger] pre[b].0 by {
                assert(pre[a] == entries[a] && pre[b] == entries[b]);
            }
        }
        assert(entries[entries.len() - 1].0 != entries[i].0);
        lemma_lookup_at(pre, i);
    }
}

proof fn lemma_insert_keeps_distinct(entries: TagEntries, key: Seq<char>, values: Seq<Seq<char>>)
    requires
        keys_distinct(entries),
    ensures
        keys_distinct(insert_entry(entries, key, values)),
        lookup(insert_entry(entries, key, values), key) == Some(values),
{
    lemma_index_of_key(entries, key);
    let r = insert_entry(entries, key, values);
    let k = index_of_key(entries, key);
    assert forall|i: int, j: int|
        0 <= i < r.len() && 0 <= j < r.len() && i != j implies #[trigger] r[i].0 != #[trigger] r[j].0 by {
        if k < 0 {
            if i < entries.len() && j < entries.len() {
                assert(r[i] == entries[i] && r[j] == entries[j]);
            } else if i < entries.len() {
                assert(r[i] == entries[i]);
            } else {
                assert(r[j] == entries[j]);
            }
        } else {
            if i != k && j != k {
                assert(r[i] == entries[i] && r[j] == entries[j]);
            } else if i == k {
                assert(r[j] == entries[j]);
            } else {
                assert(r[i] == entries[i]);
            }
        }
    }
    if k < 0 {
        assert(r.drop_last() =~= entries);
    } else {
        lemma_lookup_at(r, k);
    }
}

proof fn lemma_lookup_update_other(entries: TagEntries, k: int, key: Seq<char>, values: Seq<Seq<char>>, other: Seq<char>)
    requires
        0 <= k < entries.len(),
        entries[k].0 == key,
        other != key,
    ensures
        lookup(entries.update(k, (key, values)), other) == lookup(entries, other),
    decreases entries.len(),
{
    let u = entries.update(k, (key, values));
    if k < entries.len() - 1 {
        assert(u.drop_last() =~= entries.drop_last().update(k, (key, values)));
        lemma_lookup_update_other(entries.drop_last(), k, key, values, other);
    } else {
        assert(u.drop_last() =~= entries.drop_last());
    }
}

proof fn lemma_lookup_update_found(entries: TagEntries, key: Seq<char>, values: Seq<Seq<char>>)
    requires
        index_of_key(entries, key) >= 0,
    ensures
        lookup(entries.update(index_of_key(entries, key), (key, values)), key) == Some(values),
    decreases entries.len(),
{
    lemma_index_of_key(entries, key);
    let k = index_of_key(entries, key);
    let u = entries.update(k, (key, values));
    if k < entries.len() - 1 {
        assert(entries.last().0 != key);
        assert(index_of_key(entries.drop_last(), key) == k);
        assert(u.drop_last() =~= entries.drop_last().update(k, (key, values)));
        lemma_lookup_update_found(entries.drop_last(), key, values);
    }
}

/// Law: after the values of a category are set, reading that category gives
/// them, and reading any other category gives what it gave before.
pub proof fn law_lookup_after_insert(entries: TagEntries, key: Seq<char>, values: Seq<Seq<char>>, other: Seq<char>)
    ensures
        lookup(insert_entry(entries, key, values), key) == Some(values),
        other != key ==> lookup(insert_entry(entries, key, values), other) == lookup(entries, other),
{
    lemma_index_of_key(entries, key);
    let k = index_of_key(entries, key);
    if k >= 0 {
        lemma_lookup_update_found(entries, key, values);
    }
    if other != key {
        if k >= 0 {
            lemma_lookup_update_other(entries, k, key, values, other);
        } else {
            assert(entries.push((key, values)).drop_last() =~= entries);
        }
    }
}

/// Law: appending a value to a category adds it at the end of that
/// category's values (an absent category counting as empty) and leaves the
/// other categories as they were.
pub proof fn law_lookup_after_push_value(entries: TagEntries, key: Seq<char>, value: Seq<char>, other: Seq<char>)
    ensures
        lookup(push_value_entry(entries, key, value), key) == Some(
            match lookup(entries, key) {
                Some(v) => v,
                None => Seq::<Seq<char>>::empty(),
            }.push(value),
        ),
        other != key ==> lookup(push_value_entry(entries, key, value), other) == lookup(entries, other),
{
    let current = match lookup(entries, key) {
        Some(v) => v,
        None => Seq::<Seq<char>>::empty(),
    };
    law_lookup_after_insert(entries, key, current.push(value), other);
}

/// The deep view of a list of strings.
pub open spec fn strings_view(v: Seq<String>) -> Seq<Seq<char>> {
    v.map_values(|s: String| s@)
}

/// The abstract entries of concrete (category, values) pairs.
pub open spec fn entries_view(v: Seq<(String, Vec<String>)>) -> TagEntries {
    v.map_values(|e: (String, Vec<String>)| (e.0@, strings_view(e.1@)))
}

/// Tags organised by category: category name -> list of tag values.
///
/// Categories are kept in the order in which they were first added.
#[derive(Debug)]
pub struct TagMap {
    entries: Vec<(String, Vec<String>)>,
}

impl View for TagMap {
    type V = TagEntries;

    closed spec fn view(&self) -> TagEntries {
        entries_view(self.entries@)
    }
}

/// Copies a list of strings.
pub fn clone_strings(v: &Vec<String>) -> (r: Vec<String>)
    ensures
        strings_view(r@) == strings_view(v@),
{
    let mut r: Vec<String> = Vec::new();
    for i in 0..v.len()
        invariant
            r@.len() == i,
            i <= v@.len(),
            forall|k: int| 0 <= k < i ==> #[trigger] r@[k]@ == v@[k]@,
    {
        r.push(v[i].clone());
    }
    assert(strings_view(r@) =~= strings_view(v@));
    r
}

impl TagMap {
    #[verifier::type_invariant]
    closed spec fn inv(self) -> bool {
        keys_distinct(entries_view(self.entries@))
    }

    /// An empty tag map.
    pub fn new() -> (m: TagMap)
        ensures
            m@ == TagEntries::empty(),
    {
        let m = TagMap { entries: Vec::new() };
        assert(entries_view(m.entries@) =~= TagEntries::empty());
        m
    }

    /// The map made by inserting `entries` in order (a later entry for a
    /// category replaces the values of an earlier one).
    pub fn from_entries(entries: Vec<(String, Vec<String>)>) -> (m: TagMap)
        ensures
            m@ == inserted_all(TagEntries::empty(), entries_view(entries@)),
    {
        let mut m = TagMap::new();
        let n = entries.len();
        let ghost es = entries_view(entries@);
        for i in 0..n
            invariant
                n == entries@.len(),
                es == entries_view(entries@),
                m@ == inserted_all(TagEntries::empty(), es.take(i as int)),
        {
            assert(es.take(i + 1).drop_last() =~= es.take(i as int));
            let key = entries[i].0.clone();
            let values = clone_strings(&entries[i].1);
            m.insert(key, values);
        }
        assert(es.take(n as int) =~= es);
        m
    }

    /// The number of categories.
    pub fn len(&self) -> (n: usize)
        ensures
            n == self@.len(),
    {
        self.entries.len()
    }

    fn find(&self, key: &str) -> (r: Option<usize>)
        ensures
            r matches Some(i) ==> i < self@.len() && index_of_key(self@, key@) == i,
            r is None ==> index_of_key(self@, key@) < 0,
    {
        proof {
            use_type_invariant(self);
            lemma_index_of_key(self@, key@);
        }
        let n = self.entries.len();
        for i in 0..n
            invariant
                n == self.entries@.len(),
                keys_distinct(self@),
                forall|j: int| 0 <= j < i ==> #[trigger] self@[j].0 != key@,
        {
            if str_eq(self.entries[i].0.as_str(), key) {
                proof {
                    lemma_lookup_at(self@, i as int);
                }
                return Some(i);
            }
        }
        proof {
            if index_of_key(self@, key@) >= 0 {
                let k = index_of_key(self@, key@);
                assert(self@[k].0 == key@);
            }
        }
        None
    }

    /// The values of category `key`, if the map has that category.
    pub fn get(&self, key: &str) -> (r: Option<&Vec<String>>)
        ensures
            match r {
                Some(v) => lookup(self@, key@) == Some(strings_view(v@)),
                None => lookup(self@, key@) is None,
            },
    {
        proof {
            lemma_index_of_key(self@, key@);
        }
        match self.find(key) {
            Some(i) => Some(&self.entries[i].1),
            None => None,
        }
    }

    /// Sets the values of category `key`, replacing what it held before.
    pub fn insert(&mut self, key: String, values: Vec<String>)
        ensures
            final(self)@ == insert_entry(old(self)@, key@, strings_view(values@)),
    {
        proof {
            use_type_invariant(&*self);
            lemma_insert_keeps_distinct(self@, key@, strings_view(values@));
        }
        let ghost old_entries = self@;
        let found = self.find(key.as_str());
        let mut entries = Vec::new();
        std::mem::swap(&mut entries, &mut self.entries);
        match found {
            Some(i) => {
                entries.set(i, (key, values));
                assert(entries_view(entries@) =~= old_entries.update(
                    i as int,
                    (key@, strings_view(values@)),
                ));
            },
            None => {
                entries.push((key, values));
                assert(entries_view(entries@) =~= old_entries.push((key@, strings_view(values@))));
            },
        }
        self.entries = entries;
    }

    /// Appends `value` to the values of category `key`, creating the category when absent.
    pub fn push_value(&mut self, key: String, value: String)
        ensures
            final(self)@ == push_value_entry(old(self)@, key@, value@),
    {
        let mut values: Vec<String> = Vec::new();
        if let Some(v) = self.get(key.as_str()) {
            values = clone_strings(v);
        } else {
            assert(strings_view(values@) =~= Seq::<Seq<char>>::empty());
        }
        let ghost before = strings_view(values@);
        assert(before == match lookup(self@, key@) {
            Some(v) => v,
            None => Seq::<Seq<char>>::empty(),
        });
        values.push(value);
        assert(strings_view(values@) =~= before.push(value@));
        self.insert(key, values);
    }

    /// A copy of this map.
    pub fn copy(&self) -> (r: TagMap)
        ensures
            r@ == self@,
    {
        proof {
            use_type_invariant(self);
        }
        let mut entries: Vec<(String, Vec<String>)> = Vec::new();
        let n = self.entries.len();
        for i in 0..n
            invariant
                n == self.entries@.len(),
                entries_view(entries@) == self@.take(i as int),
        {
            let e = (self.entries[i].0.clone(), clone_strings(&self.entries[i].1));
            let ghost before = entries@;
            entries.push(e);
            assert(entries_view(entries@) =~= entries_view(before).push(self@[i as int]));
            assert(self@.take(i + 1) =~= self@.take(i as int).push(self@[i as int]));
        }
        assert(self@.take(n as int) =~= self@);
        TagMap { entries }
    }

    /// The (category, values) entries in order.
    pub fn entries(&self) -> (r: &Vec<(String, Vec<String>)>)
        ensures
            entries_view(r@) == self@,
    {
        &self.entries
    }

    /// All tag values, category after category.
    pub fn all_values(&self) -> (r: Vec<String>)
        ensures
            strings_view(r@) == all_values(self@),
    {
        let mut r: Vec<String> = Vec::new();
        let n = self.entries.len();
        for i in 0..n
            invariant
                n == self.entries@.len(),
                strings_view(r@) == all_values(self@.take(i as int)),
        {
            let ghost before = strings_view(r@);
            let vals = &self.entries[i].1;
            let m = vals.len();
            for j in 0..m
                invariant
                    m == vals@.len(),
                    strings_view(r@) == before + strings_view(vals@).take(j as int),
            {
                let c = vals[j].clone();
                let ghost r0 = r@;
                r.push(c);
                assert(r@ == r0.push(c));
                assert(c@ == vals@[j as int]@);
                assert(strings_view(r@) =~= strings_view(r0).push(c@));
                assert(strings_view(vals@).take(j + 1) =~= strings_view(vals@).take(j as int).push(vals@[j as int]@));
                assert(strings_view(r@) =~= before + strings_view(vals@).take(j + 1));
            }
            assert(strings_view(vals@).take(vals@.len() as int) =~= strings_view(vals@));
            assert(self@.take(i + 1).drop_last() =~= self@.take(i as int));
        }
        assert(self@.take(n as int) =~= self@);
        r
    }
}

impl Clone for TagMap {
    fn clone(&self) -> (r: Self)
        ensures
            r@ == self@,
    {
        self.copy()
    }
}

} // verus!
