//! Tables of records keyed by a 128-bit identifier, held in a vector in the
//! order in which keys first arrived, with at most one record per key. Their
//! meaning is a map from key to record.
use vstd::prelude::*;

verus! {

/// A record that carries its own key.
pub trait Keyed {
    /// The record's key.
    spec fn key_of(&self) -> u128;

    /// The record's key.
    fn key(&self) -> (k: u128)
        ensures
            k == self.key_of(),
    ;
}

/// At most one record per key.
pub open spec fn unique_keys<T: Keyed>(s: Seq<T>) -> bool {
    forall|i: int, j: int| 0 <= i < j < s.len() ==> (#[trigger] s[i]).key_of() != (#[trigger] s[j]).key_of()
}

/// Whether some record has key `k`.
pub open spec fn has_key<T: Keyed>(s: Seq<T>, k: u128) -> bool {
    exists|i: int| 0 <= i < s.len() && (#[trigger] s[i]).key_of() == k
}

/// The position of the record with key `k` (meaningful when there is one).
pub open spec fn key_index<T: Keyed>(s: Seq<T>, k: u128) -> int {
    choose|i: int| 0 <= i < s.len() && (#[trigger] s[i]).key_of() == k
}

/// The table as a map from key to record.
pub open spec fn key_map<T: Keyed>(s: Seq<T>) -> Map<u128, T> {
    Map::new(|k: u128| has_key(s, k), |k: u128| s[key_index(s, k)])
}

/// In a table with unique keys, the record at `i` is the one its key maps to.
pub proof fn lemma_key_index<T: Keyed>(s: Seq<T>, i: int)
    requires
        unique_keys(s),
        0 <= i < s.len(),
    ensures
        has_key(s, s[i].key_of()),
        key_index(s, s[i].key_of()) == i,
        key_map(s).contains_key(s[i].key_of()),
        key_map(s)[s[i].key_of()] == s[i],
{
    let k = s[i].key_of();
    assert(has_key(s, k));
    let j = key_index(s, k);
    if j != i {
        assert(s[j].key_of() == s[i].key_of());
    }
}

/// The keys of the records, in table order.
pub open spec fn keys_of<T: Keyed>(s: Seq<T>) -> Seq<u128> {
    s.map_values(|x: T| x.key_of())
}

/// The position of the record with key `k`, if any.
pub fn find_key<T: Keyed>(v: &Vec<T>, k: u128) -> (r: Option<usize>)
    requires
        unique_keys(v@),
    ensures
        r matches Some(i) ==> i < v@.len() && v@[i as int].key_of() == k && key_index(v@, k) == i,
        r is None <==> !has_key(v@, k),
{
    let mut i: usize = 0;
    while i < v.len()
        invariant
            unique_keys(v@),
            i <= v@.len(),
            forall|j: int| 0 <= j < i ==> (#[trigger] v@[j]).key_of() != k,
        decreases v@.len() - i,
    {
        if v[i].key() == k {
            proof {
                lemma_key_index(v@, i as int);
            }
            return Some(i);
        }
        i = i + 1;
    }
    None
}

/// Puts `x` in the table: it replaces the record with the same key, in its
/// place, or goes at the end.
pub fn upsert<T: Keyed>(v: &mut Vec<T>, x: T)
    requires
        unique_keys(old(v)@),
    ensures
        unique_keys(final(v)@),
        key_map(final(v)@) == key_map(old(v)@).insert(x.key_of(), x),
        has_key(old(v)@, x.key_of()) ==> final(v)@ == old(v)@.update(key_index(old(v)@, x.key_of()), x),
        !has_key(old(v)@, x.key_of()) ==> final(v)@ == old(v)@.push(x),
{
    let k = x.key();
    let ghost before = v@;
    match find_key(v, k) {
        Some(i) => {
            v.set(i, x);
            proof {
                let after = v@;
                assert(unique_keys(after)) by {
                    assert forall|a: int, b: int| 0 <= a < b < after.len() implies (#[trigger] after[a]).key_of()
                        != (#[trigger] after[b]).key_of() by {
                        if a != i && b != i {
                            assert(before[a].key_of() != before[b].key_of());
                        } else if a == i {
                            assert(before[a].key_of() != before[b].key_of());
                        } else {
                            assert(before[a].key_of() != before[b].key_of());
                        }
                    }
                }
                lemma_same_keys_update(before, i as int, x);
                assert(key_map(after) =~= key_map(before).insert(k, x)) by {
                    assert forall|q: u128| #[trigger] key_map(after).contains_key(q) == key_map(before).insert(k, x).contains_key(q) by {
                        if has_key(after, q) {
                            let j = choose|j: int| 0 <= j < after.len() && (#[trigger] after[j]).key_of() == q;
                            if j != i {
                                assert(before[j].key_of() == q);
                            }
                        }
                        if has_key(before, q) {
                            let j = choose|j: int| 0 <= j < before.len() && (#[trigger] before[j]).key_of() == q;
                            if j != i {
                                assert(after[j].key_of() == q);
                            } else {
                                assert(after[j].key_of() == k);
                            }
                        }
                    }
                    assert forall|q: u128| #[trigger] key_map(after).contains_key(q) implies key_map(after)[q]
                        == key_map(before).insert(k, x)[q] by {
                        let j = choose|j: int| 0 <= j < after.len() && (#[trigger] after[j]).key_of() == q;
                        lemma_key_index(after, j);
                        if j != i {
                            assert(before[j] == after[j]);
                            lemma_key_index(before, j);
                        }
                    }
                }
            }
        },
        None => {
            v.push(x);
            proof {
                let after = v@;
                let n = before.len() as int;
                assert(unique_keys(after)) by {
                    assert forall|a: int, b: int| 0 <= a < b < after.len() implies (#[trigger] after[a]).key_of()
                        != (#[trigger] after[b]).key_of() by {
                        if b < n {
                            assert(before[a].key_of() != before[b].key_of());
                        } else {
                            assert(after[a] == before[a]);
                        }
                    }
                }
                assert(key_map(after) =~= key_map(before).insert(k, x)) by {
                    assert forall|q: u128| #[trigger] key_map(after).contains_key(q) == key_map(before).insert(k, x).contains_key(q) by {
                        if has_key(after, q) {
                            let j = choose|j: int| 0 <= j < after.len() && (#[trigger] after[j]).key_of() == q;
                            if j != n {
                                assert(before[j].key_of() == q);
                            }
                        }
                        if has_key(before, q) {
                            let j = choose|j: int| 0 <= j < before.len() && (#[trigger] before[j]).key_of() == q;
                            assert(after[j].key_of() == q);
                        }
                        if q == k {
                            assert(after[n].key_of() == k);
                        }
                    }
                    assert forall|q: u128| #[trigger] key_map(after).contains_key(q) implies key_map(after)[q]
                        == key_map(before).insert(k, x)[q] by {
                        let j = choose|j: int| 0 <= j < after.len() && (#[trigger] after[j]).key_of() == q;
                        lemma_key_index(after, j);
                        if j != n {
                            assert(before[j] == after[j]);
                            lemma_key_index(before, j);
                        }
                    }
                }
            }
        },
    }
}

proof fn lemma_same_keys_update<T: Keyed>(s: Seq<T>, i: int, x: T)
    requires
        0 <= i < s.len(),
        s[i].key_of() == x.key_of(),
    ensures
        keys_of(s.update(i, x)) == keys_of(s),
{
    assert(keys_of(s.update(i, x)) =~= keys_of(s));
}

/// Takes the record with key `k` out of the table, if there is one; the
/// others keep their order.
pub fn remove_key<T: Keyed>(v: &mut Vec<T>, k: u128) -> (r: Option<T>)
    requires
        unique_keys(old(v)@),
    ensures
        unique_keys(final(v)@),
        key_map(final(v)@) == key_map(old(v)@).remove(k),
        r == (if has_key(old(v)@, k) {
            Some(key_map(old(v)@)[k])
        } else {
            None
        }),
        has_key(old(v)@, k) ==> final(v)@ == old(v)@.remove(key_index(old(v)@, k)),
        !has_key(old(v)@, k) ==> final(v)@ == old(v)@,
{
    let ghost before = v@;
    match find_key(v, k) {
        Some(i) => {
            let x = v.remove(i);
            proof {
                let after = v@;
                assert forall|j: int| 0 <= j < after.len() implies #[trigger] after[j] == (if j < i {
                    before[j]
                } else {
                    before[j + 1]
                }) by {}
                assert(unique_keys(after)) by {
                    assert forall|a: int, b: int| 0 <= a < b < after.len() implies (#[trigger] after[a]).key_of()
                        != (#[trigger] after[b]).key_of() by {
                        let a0 = if a < i { a } else { a + 1 };
                        let b0 = if b < i { b } else { b + 1 };
                        assert(before[a0].key_of() != before[b0].key_of());
                    }
                }
                lemma_key_index(before, i as int);
                assert(key_map(after) =~= key_map(before).remove(k)) by {
                    assert forall|q: u128| #[trigger] key_map(after).contains_key(q) == key_map(before).remove(k).contains_key(q) by {
                        if has_key(after, q) {
                            let j = choose|j: int| 0 <= j < after.len() && (#[trigger] after[j]).key_of() == q;
                            let j0 = if j < i { j } else { j + 1 };
                            assert(before[j0].key_of() == q);
                            assert(before[i as int].key_of() != before[j0].key_of());
                        }
                        if has_key(before, q) && q != k {
                            let j = choose|j: int| 0 <= j < before.len() && (#[trigger] before[j]).key_of() == q;
                            assert(j != i);
                            let j1 = if j < i { j } else { j - 1 };
                            assert(after[j1].key_of() == q);
                        }
                    }
                    assert forall|q: u128| #[trigger] key_map(after).contains_key(q) implies key_map(after)[q]
                        == key_map(before).remove(k)[q] by {
                        let j = choose|j: int| 0 <= j < after.len() && (#[trigger] after[j]).key_of() == q;
                        lemma_key_index(after, j);
                        let j0 = if j < i { j } else { j + 1 };
                        lemma_key_index(before, j0);
                    }
                }
            }
            Some(x)
        },
        None => {
            proof {
                assert(key_map(before) =~= key_map(before).remove(k));
            }
            None
        },
    }
}

/// In a table with unique keys, the map has one entry per record, and its
/// keys are those of the records.
pub proof fn lemma_key_map_len<T: Keyed>(s: Seq<T>)
    requires
        unique_keys(s),
    ensures
        key_map(s).dom() == keys_of(s).to_set(),
        key_map(s).len() == s.len(),
{
    let ks = keys_of(s);
    assert(key_map(s).dom() =~= ks.to_set()) by {
        assert forall|k: u128| key_map(s).dom().contains(k) <==> ks.to_set().contains(k) by {
            if has_key(s, k) {
                let i = choose|i: int| 0 <= i < s.len() && (#[trigger] s[i]).key_of() == k;
                assert(ks[i] == k);
            }
            if ks.contains(k) {
                let i = choose|i: int| 0 <= i < ks.len() && ks[i] == k;
                assert(s[i].key_of() == k);
            }
        }
    }
    assert(ks.no_duplicates()) by {
        assert forall|i: int, j: int| 0 <= i < ks.len() && 0 <= j < ks.len() && i != j implies ks[i] != ks[j] by {
            if i < j {
                assert(s[i].key_of() != s[j].key_of());
            } else {
                assert(s[j].key_of() != s[i].key_of());
            }
        }
    }
    ks.unique_seq_to_set();
}

/// Filtering a sequence with one more element at the end.
pub proof fn lemma_filter_push<A>(s: Seq<A>, pred: spec_fn(A) -> bool, e: A)
    ensures
        pred(e) ==> s.push(e).filter(pred) == s.filter(pred).push(e),
        !pred(e) ==> s.push(e).filter(pred) == s.filter(pred),
{
    reveal(Seq::filter);
    assert(s.push(e).drop_last() =~= s);
}

/// Appending a record with a new key adds that key to the map.
pub proof fn lemma_key_map_push<T: Keyed>(s: Seq<T>, x: T)
    requires
        unique_keys(s.push(x)),
    ensures
        unique_keys(s),
        !has_key(s, x.key_of()),
        key_map(s.push(x)) == key_map(s).insert(x.key_of(), x),
{
    let after = s.push(x);
    let n = s.len() as int;
    let k = x.key_of();
    assert(unique_keys(s)) by {
        assert forall|a: int, b: int| 0 <= a < b < s.len() implies (#[trigger] s[a]).key_of() != (#[trigger] s[b]).key_of() by {
            assert(after[a].key_of() != after[b].key_of());
        }
    }
    if has_key(s, k) {
        let j = choose|j: int| 0 <= j < s.len() && (#[trigger] s[j]).key_of() == k;
        assert(after[j].key_of() != after[n].key_of());
    }
    assert(key_map(after) =~= key_map(s).insert(k, x)) by {
        assert forall|q: u128| #[trigger] key_map(after).contains_key(q) == key_map(s).insert(k, x).contains_key(q) by {
            if has_key(after, q) {
                let j = choose|j: int| 0 <= j < after.len() && (#[trigger] after[j]).key_of() == q;
                if j != n {
                    assert(s[j].key_of() == q);
                }
            }
            if has_key(s, q) {
                let j = choose|j: int| 0 <= j < s.len() && (#[trigger] s[j]).key_of() == q;
                assert(after[j].key_of() == q);
            }
            if q == k {
                assert(after[n].key_of() == k);
            }
        }
        assert forall|q: u128| #[trigger] key_map(after).contains_key(q) implies key_map(after)[q] == key_map(s).insert(k, x)[q] by {
            let j = choose|j: int| 0 <= j < after.len() && (#[trigger] after[j]).key_of() == q;
            lemma_key_index(after, j);
            if j != n {
                assert(s[j] == after[j]);
                lemma_key_index(s, j);
            }
        }
    }
}


/// A record that carries its own name.
pub trait Named {
    /// The record's name.
    spec fn name_of(&self) -> Seq<char>;

    /// The record's name.
    fn name(&self) -> (k: &str)
        ensures
            k@ == self.name_of(),
    ;
}

/// At most one record per key.
pub open spec fn unique_names<T: Named>(s: Seq<T>) -> bool {
    forall|i: int, j: int| 0 <= i < j < s.len() ==> (#[trigger] s[i]).name_of() != (#[trigger] s[j]).name_of()
}

/// Whether some record has key `k`.
pub open spec fn has_name<T: Named>(s: Seq<T>, k: Seq<char>) -> bool {
    exists|i: int| 0 <= i < s.len() && (#[trigger] s[i]).name_of() == k
}

/// The position of the record with key `k` (meaningful when there is one).
pub open spec fn name_index<T: Named>(s: Seq<T>, k: Seq<char>) -> int {
    choose|i: int| 0 <= i < s.len() && (#[trigger] s[i]).name_of() == k
}

/// The table as a map from key to record.
pub open spec fn name_map<T: Named>(s: Seq<T>) -> Map<Seq<char>, T> {
    Map::new(|k: Seq<char>| has_name(s, k), |k: Seq<char>| s[name_index(s, k)])
}

/// In a table with unique keys, the record at `i` is the one its key maps to.
pub proof fn lemma_name_index<T: Named>(s: Seq<T>, i: int)
    requires
        unique_names(s),
        0 <= i < s.len(),
    ensures
        has_name(s, s[i].name_of()),
        name_index(s, s[i].name_of()) == i,
        name_map(s).contains_key(s[i].name_of()),
        name_map(s)[s[i].name_of()] == s[i],
{
    let k = s[i].name_of();
    assert(has_name(s, k));
    let j = name_index(s, k);
    if j != i {
        assert(s[j].name_of() == s[i].name_of());
    }
}

/// The keys of the records, in table order.
pub open spec fn names_of<T: Named>(s: Seq<T>) -> Seq<Seq<char>> {
    s.map_values(|x: T| x.name_of())
}

/// The position of the record with key `k`, if any.
pub fn find_name<T: Named>(v: &Vec<T>, k: &str) -> (r: Option<usize>)
    requires
        unique_names(v@),
    ensures
        r matches Some(i) ==> i < v@.len() && v@[i as int].name_of() == k@ && name_index(v@, k@) == i,
        r is None <==> !has_name(v@, k@),
{
    let mut i: usize = 0;
    while i < v.len()
        invariant
            unique_names(v@),
            i <= v@.len(),
            forall|j: int| 0 <= j < i ==> (#[trigger] v@[j]).name_of() != k@,
        decreases v@.len() - i,
    {
        if str_equal(v[i].name(), k) {
            proof {
                lemma_name_index(v@, i as int);
            }
            return Some(i);
        }
        i = i + 1;
    }
    None
}

/// Puts `x` in the table: it replaces the record with the same key, in its
/// place, or goes at the end.
pub fn upsert_named<T: Named>(v: &mut Vec<T>, x: T)
    requires
        unique_names(old(v)@),
    ensures
        unique_names(final(v)@),
        name_map(final(v)@) == name_map(old(v)@).insert(x.name_of(), x),
        has_name(old(v)@, x.name_of()) ==> final(v)@ == old(v)@.update(name_index(old(v)@, x.name_of()), x),
        !has_name(old(v)@, x.name_of()) ==> final(v)@ == old(v)@.push(x),
{
    let ghost k = x.name_of();
    let ghost before = v@;
    let found = find_name(v, x.name());
    match found {
        Some(i) => {
            v.set(i, x);
            proof {
                let after = v@;
                assert(unique_names(after)) by {
                    assert forall|a: int, b: int| 0 <= a < b < after.len() implies (#[trigger] after[a]).name_of()
                        != (#[trigger] after[b]).name_of() by {
                        if a != i && b != i {
                            assert(before[a].name_of() != before[b].name_of());
                        } else if a == i {
                            assert(before[a].name_of() != before[b].name_of());
                        } else {
                            assert(before[a].name_of() != before[b].name_of());
                        }
                    }
                }
                lemma_same_names_update(before, i as int, x);
                assert(name_map(after) =~= name_map(before).insert(k, x)) by {
                    assert forall|q: Seq<char>| #[trigger] name_map(after).contains_key(q) == name_map(before).insert(k, x).contains_key(q) by {
                        if has_name(after, q) {
                            let j = choose|j: int| 0 <= j < after.len() && (#[trigger] after[j]).name_of() == q;
                            if j != i {
                                assert(before[j].name_of() == q);
                            }
                        }
                        if has_name(before, q) {
                            let j = choose|j: int| 0 <= j < before.len() && (#[trigger] before[j]).name_of() == q;
                            if j != i {
                                assert(after[j].name_of() == q);
                            } else {
                                assert(after[j].name_of() == k);
                            }
                        }
                    }
                    assert forall|q: Seq<char>| #[trigger] name_map(after).contains_key(q) implies name_map(after)[q]
                        == name_map(before).insert(k, x)[q] by {
                        let j = choose|j: int| 0 <= j < after.len() && (#[trigger] after[j]).name_of() == q;
                        lemma_name_index(after, j);
                        if j != i {
                            assert(before[j] == after[j]);
                            lemma_name_index(before, j);
                        }
                    }
                }
            }
        },
        None => {
            v.push(x);
            proof {
                let after = v@;
                let n = before.len() as int;
                assert(unique_names(after)) by {
                    assert forall|a: int, b: int| 0 <= a < b < after.len() implies (#[trigger] after[a]).name_of()
                        != (#[trigger] after[b]).name_of() by {
                        if b < n {
                            assert(before[a].name_of() != before[b].name_of());
                        } else {
                            assert(after[a] == before[a]);
                        }
                    }
                }
                assert(name_map(after) =~= name_map(before).insert(k, x)) by {
                    assert forall|q: Seq<char>| #[trigger] name_map(after).contains_key(q) == name_map(before).insert(k, x).contains_key(q) by {
                        if has_name(after, q) {
                            let j = choose|j: int| 0 <= j < after.len() && (#[trigger] after[j]).name_of() == q;
                            if j != n {
                                assert(before[j].name_of() == q);
                            }
                        }
                        if has_name(before, q) {
                            let j = choose|j: int| 0 <= j < before.len() && (#[trigger] before[j]).name_of() == q;
                            assert(after[j].name_of() == q);
                        }
                        if q == k {
                            assert(after[n].name_of() == k);
                        }
                    }
                    assert forall|q: Seq<char>| #[trigger] name_map(after).contains_key(q) implies name_map(after)[q]
                        == name_map(before).insert(k, x)[q] by {
                        let j = choose|j: int| 0 <= j < after.len() && (#[trigger] after[j]).name_of() == q;
                        lemma_name_index(after, j);
                        if j != n {
                            assert(before[j] == after[j]);
                            lemma_name_index(before, j);
                        }
                    }
                }
            }
        },
    }
}

proof fn lemma_same_names_update<T: Named>(s: Seq<T>, i: int, x: T)
    requires
        0 <= i < s.len(),
        s[i].name_of() == x.name_of(),
    ensures
        names_of(s.update(i, x)) == names_of(s),
{
    assert(names_of(s.update(i, x)) =~= names_of(s));
}

/// Takes the record with key `k` out of the table, if there is one; the
/// others keep their order.
pub fn remove_named<T: Named>(v: &mut Vec<T>, k: &str) -> (r: Option<T>)
    requires
        unique_names(old(v)@),
    ensures
        unique_names(final(v)@),
        name_map(final(v)@) == name_map(old(v)@).remove(k@),
        r == (if has_name(old(v)@, k@) {
            Some(name_map(old(v)@)[k@])
        } else {
            None
        }),
        has_name(old(v)@, k@) ==> final(v)@ == old(v)@.remove(name_index(old(v)@, k@)),
        !has_name(old(v)@, k@) ==> final(v)@ == old(v)@,
{
    let ghost before = v@;
    match find_name(v, k) {
        Some(i) => {
            let x = v.remove(i);
            proof {
                let after = v@;
                assert forall|j: int| 0 <= j < after.len() implies #[trigger] after[j] == (if j < i {
                    before[j]
                } else {
                    before[j + 1]
                }) by {}
                assert(unique_names(after)) by {
                    assert forall|a: int, b: int| 0 <= a < b < after.len() implies (#[trigger] after[a]).name_of()
                        != (#[trigger] after[b]).name_of() by {
                        let a0 = if a < i { a } else { a + 1 };
                        let b0 = if b < i { b } else { b + 1 };
                        assert(before[a0].name_of() != before[b0].name_of());
                    }
                }
                lemma_name_index(before, i as int);
                assert(name_map(after) =~= name_map(before).remove(k@)) by {
                    assert forall|q: Seq<char>| #[trigger] name_map(after).contains_key(q) == name_map(before).remove(k@).contains_key(q) by {
                        if has_name(after, q) {
                            let j = choose|j: int| 0 <= j < after.len() && (#[trigger] after[j]).name_of() == q;
                            let j0 = if j < i { j } else { j + 1 };
                            assert(before[j0].name_of() == q);
                            assert(before[i as int].name_of() != before[j0].name_of());
                        }
                        if has_name(before, q) && q != k@ {
                            let j = choose|j: int| 0 <= j < before.len() && (#[trigger] before[j]).name_of() == q;
                            assert(j != i);
                            let j1 = if j < i { j } else { j - 1 };
                            assert(after[j1].name_of() == q);
                        }
                    }
                    assert forall|q: Seq<char>| #[trigger] name_map(after).contains_key(q) implies name_map(after)[q]
                        == name_map(before).remove(k@)[q] by {
                        let j = choose|j: int| 0 <= j < after.len() && (#[trigger] after[j]).name_of() == q;
                        lemma_name_index(after, j);
                        let j0 = if j < i { j } else { j + 1 };
                        lemma_name_index(before, j0);
                    }
                }
            }
            Some(x)
        },
        None => {
            proof {
                assert(name_map(before) =~= name_map(before).remove(k@));
            }
            None
        },
    }
}

/// In a table with unique keys, the map has one entry per record, and its
/// keys are those of the records.
pub proof fn lemma_name_map_len<T: Named>(s: Seq<T>)
    requires
        unique_names(s),
    ensures
        name_map(s).dom() == names_of(s).to_set(),
        name_map(s).len() == s.len(),
{
    let ks = names_of(s);
    assert(name_map(s).dom() =~= ks.to_set()) by {
        assert forall|k: Seq<char>| name_map(s).dom().contains(k) <==> ks.to_set().contains(k) by {
            if has_name(s, k) {
                let i = choose|i: int| 0 <= i < s.len() && (#[trigger] s[i]).name_of() == k;
                assert(ks[i] == k);
            }
            if ks.contains(k) {
                let i = choose|i: int| 0 <= i < ks.len() && ks[i] == k;
                assert(s[i].name_of() == k);
            }
        }
    }
    assert(ks.no_duplicates()) by {
        assert forall|i: int, j: int| 0 <= i < ks.len() && 0 <= j < ks.len() && i != j implies ks[i] != ks[j] by {
            if i < j {
                assert(s[i].name_of() != s[j].name_of());
            } else {
                assert(s[j].name_of() != s[i].name_of());
            }
        }
    }
    ks.unique_seq_to_set();
}

/// Appending a record with a new key adds that key to the map.
pub proof fn lemma_name_map_push<T: Named>(s: Seq<T>, x: T)
    requires
        unique_names(s.push(x)),
    ensures
        unique_names(s),
        !has_name(s, x.name_of()),
        name_map(s.push(x)) == name_map(s).insert(x.name_of(), x),
{
    let after = s.push(x);
    let n = s.len() as int;
    let k = x.name_of();
    assert(unique_names(s)) by {
        assert forall|a: int, b: int| 0 <= a < b < s.len() implies (#[trigger] s[a]).name_of() != (#[trigger] s[b]).name_of() by {
            assert(after[a].name_of() != after[b].name_of());
        }
    }
    if has_name(s, k) {
        let j = choose|j: int| 0 <= j < s.len() && (#[trigger] s[j]).name_of() == k;
        assert(after[j].name_of() != after[n].name_of());
    }
    assert(name_map(after) =~= name_map(s).insert(k, x)) by {
        assert forall|q: Seq<char>| #[trigger] name_map(after).contains_key(q) == name_map(s).insert(k, x).contains_key(q) by {
            if has_name(after, q) {
                let j = choose|j: int| 0 <= j < after.len() && (#[trigger] after[j]).name_of() == q;
                if j != n {
                    assert(s[j].name_of() == q);
                }
            }
            if has_name(s, q) {
                let j = choose|j: int| 0 <= j < s.len() && (#[trigger] s[j]).name_of() == q;
                assert(after[j].name_of() == q);
            }
            if q == k {
                assert(after[n].name_of() == k);
            }
        }
        assert forall|q: Seq<char>| #[trigger] name_map(after).contains_key(q) implies name_map(after)[q] == name_map(s).insert(k, x)[q] by {
            let j = choose|j: int| 0 <= j < after.len() && (#[trigger] after[j]).name_of() == q;
            lemma_name_index(after, j);
            if j != n {
                assert(s[j] == after[j]);
                lemma_name_index(s, j);
            }
        }
    }
}


/// Whether two texts are equal.
pub fn str_equal(a: &str, b: &str) -> (eq: bool)
    ensures
        eq == (a@ == b@),
{
    let n = a.unicode_len();
    if n != b.unicode_len() {
        return false;
    }
    let mut i: usize = 0;
    while i < n
        invariant
            n == a@.len(),
            n == b@.len(),
            i <= n,
            forall|j: int| 0 <= j < i ==> a@[j] == b@[j],
        decreases n - i,
    {
        if a.get_char(i) != b.get_char(i) {
            return false;
        }
        i = i + 1;
    }
    assert(a@ =~= b@);
    true
}

} // verus!
