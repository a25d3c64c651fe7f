use vstd::prelude::*;

verus! {

/// The value of the first entry at or after position `i` whose key is `k`.
pub open spec fn lookup_from<K, V>(s: Seq<(K, V)>, k: K, i: int) -> Option<V>
    decreases s.len() - i,
{
    if i < 0 || i >= s.len() {
        None
    } else if s[i].0 == k {
        Some(s[i].1)
    } else {
        lookup_from(s, k, i + 1)
    }
}

/// The value of the first entry whose key is `k`.
pub open spec fn lookup<K, V>(s: Seq<(K, V)>, k: K) -> Option<V> {
    lookup_from(s, k, 0)
}

/// Position of the first entry whose key is `k`, or the length when there is none.
pub open spec fn first_index<K, V>(s: Seq<(K, V)>, k: K, i: int) -> int
    decreases s.len() - i,
{
    if i < 0 || i >= s.len() {
        s.len() as int
    } else if s[i].0 == k {
        i
    } else {
        first_index(s, k, i + 1)
    }
}

/// `s` with the first entry keyed `k` given the value `v`, or with `(k, v)`
/// appended when no entry has that key.
pub open spec fn upsert<K, V>(s: Seq<(K, V)>, k: K, v: V) -> Seq<(K, V)> {
    let i = first_index(s, k, 0);
    if i < s.len() {
        s.update(i, (k, v))
    } else {
        s.push((k, v))
    }
}

/// Every entry of `s` upserted in turn into an empty sequence: for a repeated
/// key the last value wins and the first position is kept.
pub open spec fn upsert_all<K, V>(s: Seq<(K, V)>) -> Seq<(K, V)>
    decreases s.len(),
{
    if s.len() == 0 {
        Seq::empty()
    } else {
        upsert(upsert_all(s.drop_last()), s.last().0, s.last().1)
    }
}

pub proof fn lemma_first_index<K, V>(s: Seq<(K, V)>, k: K, i: int)
    requires
        0 <= i <= s.len(),
    ensures
        i <= first_index(s, k, i) <= s.len(),
        first_index(s, k, i) < s.len() ==> s[first_index(s, k, i)].0 == k,
        forall|j: int| i <= j < first_index(s, k, i) ==> s[j].0 != k,
        first_index(s, k, i) < s.len() ==> lookup_from(s, k, i) == Some(
            s[first_index(s, k, i)].1,
        ),
        first_index(s, k, i) == s.len() ==> lookup_from(s, k, i).is_none(),
    decreases s.len() - i,
{
    if i < s.len() && s[i].0 != k {
        lemma_first_index(s, k, i + 1);
    }
}

/// Entries before `i` that do not carry `k` do not change what `k` finds.
pub proof fn lemma_lookup_same_prefix<K, V>(s: Seq<(K, V)>, t: Seq<(K, V)>, k: K, i: int, j: int)
    requires
        0 <= j <= i,
        i <= s.len(),
        i <= t.len(),
        forall|m: int| j <= m < i ==> s[m] == t[m] && s[m].0 != k,
    ensures
        lookup_from(s, k, j) == lookup_from(s, k, i),
        lookup_from(t, k, j) == lookup_from(t, k, i),
    decreases i - j,
{
    if j < i {
        lemma_lookup_same_prefix(s, t, k, i, j + 1);
    }
}

/// What `upsert` does to lookups: the key upserted finds the new value, every
/// other key finds what it found before.
pub proof fn lemma_upsert<K, V>(s: Seq<(K, V)>, k: K, v: V)
    ensures
        lookup(upsert(s, k, v), k) == Some(v),
        forall|k2: K| k2 != k ==> #[trigger] lookup(upsert(s, k, v), k2) == lookup(s, k2),
        upsert(s, k, v).len() == if lookup(s, k).is_some() {
            s.len()
        } else {
            s.len() + 1
        },
{
    lemma_first_index(s, k, 0);
    let i = first_index(s, k, 0);
    let t = upsert(s, k, v);
    lemma_lookup_same_prefix(t, s, k, i, 0);
    assert(lookup_from(t, k, i) == Some(v));
    assert forall|k2: K| k2 != k implies #[trigger] lookup(t, k2) == lookup(s, k2) by {
        lemma_lookup_other(s, k, v, k2, 0);
    }
}

proof fn lemma_lookup_other<K, V>(s: Seq<(K, V)>, k: K, v: V, k2: K, j: int)
    requires
        k2 != k,
        0 <= j <= s.len(),
    ensures
        lookup_from(upsert(s, k, v), k2, j) == lookup_from(s, k2, j),
    decreases s.len() - j,
{
    lemma_first_index(s, k, 0);
    let t = upsert(s, k, v);
    if j < s.len() {
        lemma_lookup_other(s, k, v, k2, j + 1);
    } else if j == s.len() && t.len() > s.len() {
        assert(lookup_from(t, k2, j + 1).is_none());
    }
}

/// Upserting a value that the key already finds changes nothing.
pub proof fn lemma_upsert_present<K, V>(s: Seq<(K, V)>, k: K, v: V)
    requires
        lookup(s, k) == Some(v),
    ensures
        upsert(s, k, v) == s,
{
    lemma_first_index(s, k, 0);
    let i = first_index(s, k, 0);
    assert(s[i] == (k, v));
    assert(upsert(s, k, v) =~= s);
}

/// Upserting the same entry twice is the same as upserting it once.
pub proof fn lemma_upsert_twice<K, V>(s: Seq<(K, V)>, k: K, v: V)
    ensures
        upsert(upsert(s, k, v), k, v) == upsert(s, k, v),
{
    lemma_upsert(s, k, v);
    lemma_upsert_present(upsert(s, k, v), k, v);
}

/// No two entries share a key.
pub open spec fn unique_keys<K, V>(s: Seq<(K, V)>) -> bool {
    forall|i: int, j: int| 0 <= i < j < s.len() ==> s[i].0 != s[j].0
}

/// On a sequence with unique keys, `upsert` keeps the keys unique, and each
/// entry afterwards is either the new one or an old one of another key.
pub proof fn lemma_upsert_unique<K, V>(s: Seq<(K, V)>, k: K, v: V)
    requires
        unique_keys(s),
    ensures
        unique_keys(upsert(s, k, v)),
        forall|j: int| 0 <= j < upsert(s, k, v).len() ==> #[trigger] upsert(s, k, v)[j] == (k, v) || (
            upsert(s, k, v)[j].0 != k && s.contains(upsert(s, k, v)[j])),
        exists|j: int| 0 <= j < upsert(s, k, v).len() && #[trigger] upsert(s, k, v)[j] == (k, v),
{
    lemma_first_index(s, k, 0);
    let i = first_index(s, k, 0);
    let t = upsert(s, k, v);
    if i < s.len() {
        assert(t[i] == (k, v));
        assert forall|j: int| 0 <= j < t.len() implies #[trigger] t[j] == (k, v) || (t[j].0 != k
            && s.contains(t[j])) by {
            if j != i {
                assert(s[j] == t[j]);
            }
        }
    } else {
        assert(t[s.len() as int] == (k, v));
        assert forall|j: int| 0 <= j < t.len() implies #[trigger] t[j] == (k, v) || (t[j].0 != k
            && s.contains(t[j])) by {
            if j < s.len() {
                assert(s[j] == t[j]);
            }
        }
    }
}

/// Position of the first entry keyed `k`.
pub fn find_key(v: &Vec<(String, String)>, k: &str) -> (r: Option<usize>)
    ensures
        r.is_none() ==> lookup(pairs_view(v@), k@).is_none(),
        r.is_some() ==> r.unwrap() < v.len() && r.unwrap() == first_index(pairs_view(v@), k@, 0)
            && lookup(pairs_view(v@), k@) == Some(v@[r.unwrap() as int].1@),
{
    let ghost s = pairs_view(v@);
    proof {
        lemma_first_index(s, k@, 0);
    }
    let mut i: usize = 0;
    while i < v.len()
        invariant
            s == pairs_view(v@),
            i <= v.len(),
            forall|j: int| 0 <= j < i ==> s[j].0 != k@,
            first_index(s, k@, 0) == first_index(s, k@, i as int),
            lookup(s, k@) == lookup_from(s, k@, i as int),
        decreases v.len() - i,
    {
        if crate::text::same_text(v[i].0.as_str(), k) {
            return Some(i);
        }
        i = i + 1;
    }
    None
}

/// The view of a list of text pairs.
pub open spec fn pairs_view(v: Seq<(String, String)>) -> Seq<(Seq<char>, Seq<char>)> {
    v.map_values(|p: (String, String)| (p.0@, p.1@))
}

/// A copy of a list of text pairs.
pub fn clone_pairs(v: &Vec<(String, String)>) -> (r: Vec<(String, String)>)
    ensures
        pairs_view(r@) == pairs_view(v@),
{
    let mut r: Vec<(String, String)> = Vec::new();
    let mut i: usize = 0;
    while i < v.len()
        invariant
            i <= v.len(),
            r@.len() == i,
            pairs_view(r@) == pairs_view(v@).subrange(0, i as int),
        decreases v.len() - i,
    {
        let a = v[i].0.clone();
        let b = v[i].1.clone();
        let ghost r0 = r@;
        r.push((a, b));
        assert(r@ == r0.push((a, b)));
        assert(a@ == v@[i as int].0@ && b@ == v@[i as int].1@);
        assert forall|j: int| 0 <= j <= i implies #[trigger] pairs_view(r@)[j] == pairs_view(v@)[j] by {
            if j < i {
                assert(pairs_view(r0)[j] == pairs_view(v@).subrange(0, i as int)[j]);
            }
        }
        assert(pairs_view(r@) =~= pairs_view(v@).subrange(0, i + 1));
        i = i + 1;
    }
    assert(pairs_view(v@).subrange(0, v.len() as int) =~= pairs_view(v@));
    r
}

/// Sets `k` to `val`: the first entry keyed `k` takes the new value, or the
/// pair is appended.
pub fn upsert_pair(v: &mut Vec<(String, String)>, k: String, val: String)
    ensures
        pairs_view(final(v)@) == upsert(pairs_view(old(v)@), k@, val@),
{
    let ghost s = pairs_view(v@);
    match find_key(v, k.as_str()) {
        Some(i) => {
            v.set(i, (k, val));
            assert(pairs_view(v@) =~= s.update(i as int, (k@, val@)));
        },
        None => {
            proof {
                lemma_first_index(s, k@, 0);
            }
            v.push((k, val));
            assert(pairs_view(v@) =~= s.push((k@, val@)));
        },
    }
}

} // verus!
