//! Byte strings: the order in which the persistent map keeps its keys, and
//! the ordered listings that its iteration returns.

use vstd::prelude::*;

verus! {

/// Whether `a` comes strictly before `b` in lexicographic byte order: at the
/// first position where they differ `a` holds the smaller byte, or `a` is a
/// proper prefix of `b`.
pub open spec fn bytes_lt(a: Seq<u8>, b: Seq<u8>) -> bool
    decreases a.len(),
{
    if b.len() == 0 {
        false
    } else if a.len() == 0 {
        true
    } else if a[0] != b[0] {
        a[0] < b[0]
    } else {
        bytes_lt(a.drop_first(), b.drop_first())
    }
}

/// No byte string comes before itself.
pub proof fn lemma_bytes_lt_irreflexive(a: Seq<u8>)
    ensures
        !bytes_lt(a, a),
    decreases a.len(),
{
    if a.len() > 0 {
        lemma_bytes_lt_irreflexive(a.drop_first());
    }
}

/// The order is transitive.
pub proof fn lemma_bytes_lt_transitive(a: Seq<u8>, b: Seq<u8>, c: Seq<u8>)
    requires
        bytes_lt(a, b),
        bytes_lt(b, c),
    ensures
        bytes_lt(a, c),
    decreases a.len(),
{
    if a.len() > 0 && a[0] == b[0] && b[0] == c[0] {
        lemma_bytes_lt_transitive(a.drop_first(), b.drop_first(), c.drop_first());
    }
}

/// Any two different byte strings are ordered one way or the other.
pub proof fn lemma_bytes_lt_total(a: Seq<u8>, b: Seq<u8>)
    ensures
        a == b || bytes_lt(a, b) || bytes_lt(b, a),
    decreases a.len(),
{
    if a.len() == 0 || b.len() == 0 {
        if a.len() == 0 && b.len() == 0 {
            assert(a =~= b);
        }
    } else if a[0] == b[0] {
        lemma_bytes_lt_total(a.drop_first(), b.drop_first());
        if a.drop_first() == b.drop_first() {
            assert(a =~= seq![a[0]] + a.drop_first());
            assert(b =~= seq![b[0]] + b.drop_first());
        }
    }
}

/// Two byte strings are never ordered both ways.
pub proof fn lemma_bytes_lt_asymmetric(a: Seq<u8>, b: Seq<u8>)
    requires
        bytes_lt(a, b),
    ensures
        !bytes_lt(b, a),
{
    if bytes_lt(b, a) {
        lemma_bytes_lt_transitive(a, b, a);
        lemma_bytes_lt_irreflexive(a);
    }
}

/// Whether `a` comes strictly before `b` in lexicographic byte order.
pub fn precedes(a: &Vec<u8>, b: &Vec<u8>) -> (before: bool)
    ensures
        before == bytes_lt(a@, b@),
{
    let mut i: usize = 0;
    assert(a@.skip(0) =~= a@ && b@.skip(0) =~= b@);
    while i < a.len() && i < b.len()
        invariant
            i <= a.len(),
            i <= b.len(),
            bytes_lt(a@, b@) == bytes_lt(a@.skip(i as int), b@.skip(i as int)),
        decreases a.len() - i,
    {
        let ghost rest_a = a@.skip(i as int);
        let ghost rest_b = b@.skip(i as int);
        assert(rest_a[0] == a[i as int] && rest_b[0] == b[i as int]);
        if a[i] != b[i] {
            return a[i] < b[i];
        }
        assert(rest_a.drop_first() =~= a@.skip(i + 1));
        assert(rest_b.drop_first() =~= b@.skip(i + 1));
        i += 1;
    }
    i < b.len()
}

/// Whether the keys rise strictly from each to the next, and so from each
/// to every later one.
pub fn keys_rise(keys: &Vec<Vec<u8>>) -> (rising: bool)
    ensures
        rising == forall|i: int, j: int|
            0 <= i < j < keys.len() ==> bytes_lt(#[trigger] keys[i]@, #[trigger] keys[j]@),
{
    if keys.len() < 2 {
        return true;
    }
    let mut n: usize = 1;
    while n < keys.len()
        invariant
            1 <= n <= keys.len(),
            forall|i: int, j: int|
                0 <= i < j < n ==> bytes_lt(#[trigger] keys[i]@, #[trigger] keys[j]@),
        decreases keys.len() - n,
    {
        if !precedes(&keys[n - 1], &keys[n]) {
            assert(!bytes_lt(keys[n - 1]@, keys[n as int]@));
            return false;
        }
        assert forall|i: int, j: int| 0 <= i < j < n + 1 implies bytes_lt(
            #[trigger] keys[i]@,
            #[trigger] keys[j]@,
        ) by {
            if j == n && i < n - 1 {
                lemma_bytes_lt_transitive(keys[i]@, keys[n - 1]@, keys[n as int]@);
            }
        }
        n += 1;
    }
    true
}

/// Whether two byte strings are the same.
pub fn same_bytes(a: &Vec<u8>, b: &Vec<u8>) -> (same: bool)
    ensures
        same == (a@ == b@),
{
    if a.len() != b.len() {
        return false;
    }
    let mut i: usize = 0;
    while i < a.len()
        invariant
            i <= a.len(),
            a.len() == b.len(),
            forall|j: int| 0 <= j < i ==> a[j] == b[j],
        decreases a.len() - i,
    {
        if a[i] != b[i] {
            return false;
        }
        i += 1;
    }
    assert(a@ =~= b@);
    true
}

/// `entries` lists the map `m` by ascending rank: every entry is a binding of
/// `m`, ranks rise strictly along the sequence, and every key of `m` occurs.
pub open spec fn lists<K, V>(entries: Seq<(K, V)>, m: Map<K, V>, rank: spec_fn(K) -> Seq<u8>) -> bool {
    &&& forall|i: int|
        0 <= i < entries.len() ==> m.contains_key(#[trigger] entries[i].0) && m[entries[i].0]
            == entries[i].1
    &&& ascending(entries, rank)
    &&& forall|k: K| #[trigger]
        m.contains_key(k) ==> exists|i: int| 0 <= i < entries.len() && #[trigger] entries[i].0 == k
}

/// Ranks rise strictly along `entries`.
pub open spec fn ascending<K, V>(entries: Seq<(K, V)>, rank: spec_fn(K) -> Seq<u8>) -> bool {
    forall|i: int, j: int|
        0 <= i < j < entries.len() ==> bytes_lt(
            rank(#[trigger] entries[i].0),
            rank(#[trigger] entries[j].0),
        )
}

/// Different keys have different ranks.
pub open spec fn injective<K>(rank: spec_fn(K) -> Seq<u8>) -> bool {
    forall|a: K, b: K| #[trigger] rank(a) == #[trigger] rank(b) ==> a == b
}

/// What a sequence of bindings amounts to when they are inserted in turn, a
/// later binding replacing an earlier one of the same key.
pub open spec fn map_of<K, V>(entries: Seq<(K, V)>) -> Map<K, V>
    decreases entries.len(),
{
    if entries.len() == 0 {
        Map::empty()
    } else {
        map_of(entries.drop_last()).insert(entries.last().0, entries.last().1)
    }
}

/// Two ascending listings of one map agree on their first `n` entries, and
/// the second is at least that long.
proof fn lemma_listing_prefix<K, V>(
    s: Seq<(K, V)>,
    t: Seq<(K, V)>,
    m: Map<K, V>,
    rank: spec_fn(K) -> Seq<u8>,
    n: int,
)
    requires
        lists(s, m, rank),
        lists(t, m, rank),
        injective(rank),
        0 <= n <= s.len(),
    ensures
        n <= t.len(),
        forall|i: int| 0 <= i < n ==> s[i] == t[i],
    decreases n,
{
    if n > 0 {
        let i = n - 1;
        lemma_listing_prefix(s, t, m, rank, i);
        let k = s[i].0;
        assert(m.contains_key(k));
        let p = choose|p: int| 0 <= p < t.len() && #[trigger] t[p].0 == k;
        if p < i {
            assert(s[p] == t[p]);
            assert(bytes_lt(rank(s[p].0), rank(s[i].0)));
            lemma_bytes_lt_irreflexive(rank(k));
        }
        let k2 = t[i].0;
        assert(m.contains_key(k2));
        let q = choose|q: int| 0 <= q < s.len() && #[trigger] s[q].0 == k2;
        if q < i {
            assert(s[q] == t[q]);
            assert(bytes_lt(rank(t[q].0), rank(t[i].0)));
            lemma_bytes_lt_irreflexive(rank(k2));
        }
        if p > i && q > i {
            assert(bytes_lt(rank(t[i].0), rank(t[p].0)));
            assert(bytes_lt(rank(s[i].0), rank(s[q].0)));
            lemma_bytes_lt_asymmetric(rank(k2), rank(k));
        }
        assert(k == k2);
        assert(s[i].1 == m[k]);
        assert(t[i].1 == m[k]);
    }
}

/// A map has at most one ascending listing.
pub proof fn lemma_listing_unique<K, V>(
    s: Seq<(K, V)>,
    t: Seq<(K, V)>,
    m: Map<K, V>,
    rank: spec_fn(K) -> Seq<u8>,
)
    requires
        lists(s, m, rank),
        lists(t, m, rank),
        injective(rank),
    ensures
        s == t,
{
    lemma_listing_prefix(s, t, m, rank, s.len() as int);
    lemma_listing_prefix(t, s, m, rank, t.len() as int);
    assert(s =~= t);
}

/// The keys of `map_of(entries)` are the keys that occur in `entries`.
pub proof fn lemma_map_of_keys<K, V>(entries: Seq<(K, V)>, k: K)
    ensures
        map_of(entries).contains_key(k) <==> exists|i: int|
            0 <= i < entries.len() && #[trigger] entries[i].0 == k,
    decreases entries.len(),
{
    if entries.len() > 0 {
        let init = entries.drop_last();
        lemma_map_of_keys(init, k);
        if map_of(entries).contains_key(k) {
            if entries.last().0 == k {
                assert(entries[entries.len() - 1].0 == k);
            } else {
                let i = choose|i: int| 0 <= i < init.len() && #[trigger] init[i].0 == k;
                assert(entries[i].0 == k);
            }
        }
        if exists|i: int| 0 <= i < entries.len() && #[trigger] entries[i].0 == k {
            let i = choose|i: int| 0 <= i < entries.len() && #[trigger] entries[i].0 == k;
            if i < init.len() {
                assert(init[i].0 == k);
            }
        }
    }
}

/// A sequence whose ranks rise strictly is the ascending listing of the map
/// that it amounts to.
pub proof fn lemma_ascending_lists_map_of<K, V>(entries: Seq<(K, V)>, rank: spec_fn(K) -> Seq<u8>)
    requires
        ascending(entries, rank),
    ensures
        lists(entries, map_of(entries), rank),
    decreases entries.len(),
{
    if entries.len() > 0 {
        let init = entries.drop_last();
        let last = entries.last();
        assert forall|i: int, j: int| 0 <= i < j < init.len() implies bytes_lt(
            rank(#[trigger] init[i].0),
            rank(#[trigger] init[j].0),
        ) by {
            assert(bytes_lt(rank(entries[i].0), rank(entries[j].0)));
        }
        lemma_ascending_lists_map_of(init, rank);
        let m = map_of(entries);
        assert forall|i: int| 0 <= i < entries.len() implies m.contains_key(
            #[trigger] entries[i].0,
        ) && m[entries[i].0] == entries[i].1 by {
            if i < init.len() {
                assert(init[i] == entries[i]);
                assert(map_of(init).contains_key(init[i].0));
                assert(bytes_lt(rank(entries[i].0), rank(entries[entries.len() - 1].0)));
                lemma_bytes_lt_irreflexive(rank(last.0));
            }
        }
        assert forall|k: K| #[trigger] m.contains_key(k) implies exists|i: int|
            0 <= i < entries.len() && #[trigger] entries[i].0 == k by {
            lemma_map_of_keys(entries, k);
        }
    }
}

/// The ascending listing of a map without bindings is empty.
pub proof fn lemma_listing_of_nothing<K, V>(entries: Seq<(K, V)>, rank: spec_fn(K) -> Seq<u8>)
    requires
        lists(entries, Map::empty(), rank),
    ensures
        entries == Seq::<(K, V)>::empty(),
{
    if entries.len() > 0 {
        assert(Map::<K, V>::empty().contains_key(entries[0].0));
    }
    assert(entries =~= Seq::<(K, V)>::empty());
}

/// Bindings that replace the content of a map come back unchanged, and in
/// their order, when the map is listed, provided that their ranks rise
/// strictly. Bindings out of order, or two of one key, do not: the listing
/// is ascending and holds each key once.
pub proof fn lemma_replace_then_list<K, V>(
    data: Seq<(K, V)>,
    listing: Seq<(K, V)>,
    rank: spec_fn(K) -> Seq<u8>,
)
    requires
        ascending(data, rank),
        injective(rank),
        lists(listing, map_of(data), rank),
    ensures
        listing == data,
{
    lemma_ascending_lists_map_of(data, rank);
    lemma_listing_unique(listing, data, map_of(data), rank);
}

} // verus!
