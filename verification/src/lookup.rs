use vstd::prelude::*;

verus! {

/// First entry of `s` whose key equals `k`, if any. Both the escrow table
/// and the holding-account table are looked up through this, each with its
/// own key.
pub open spec fn find_by<T>(s: Seq<T>, key: spec_fn(T) -> Seq<u8>, k: Seq<u8>) -> Option<T>
    decreases s.len(),
{
    if s.len() <= 0 {
        None
    } else if key(s[0]) == k {
        Some(s[0])
    } else {
        find_by(s.drop_first(), key, k)
    }
}

/// No two entries of `s` share a key.
pub open spec fn unique_by<T>(s: Seq<T>, key: spec_fn(T) -> Seq<u8>) -> bool {
    forall|i: int, j: int| 0 <= i < j < s.len() ==> key(#[trigger] s[i]) != key(#[trigger] s[j])
}

/// A lookup misses exactly when no entry carries the key.
pub proof fn lemma_find_by_none<T>(s: Seq<T>, key: spec_fn(T) -> Seq<u8>, k: Seq<u8>)
    ensures
        find_by(s, key, k) is None <==> (forall|j: int| 0 <= j < s.len() ==> key(#[trigger] s[j]) != k),
    decreases s.len(),
{
    if s.len() > 0 && key(s[0]) != k {
        lemma_find_by_none(s.drop_first(), key, k);
        assert forall|j: int| 1 <= j < s.len() implies key(#[trigger] s[j]) != k <==> key(s.drop_first()[j - 1]) != k by {
            assert(s.drop_first()[j - 1] == s[j]);
        }
    }
}

/// The first entry with no earlier entry of the same key is what a lookup
/// returns.
pub proof fn lemma_find_by_first<T>(s: Seq<T>, key: spec_fn(T) -> Seq<u8>, i: int)
    requires
        0 <= i < s.len(),
        forall|j: int| 0 <= j < i ==> key(#[trigger] s[j]) != key(s[i]),
    ensures
        find_by(s, key, key(s[i])) == Some(s[i]),
    decreases i,
{
    if i > 0 {
        lemma_find_by_first(s.drop_first(), key, i - 1);
        assert(s.drop_first()[i - 1] == s[i]);
        assert forall|j: int| 0 <= j < i - 1 implies key(#[trigger] s.drop_first()[j]) != key(
            s.drop_first()[i - 1],
        ) by {
            assert(s.drop_first()[j] == s[j + 1]);
        }
    }
}

/// Replacing the first entry of a key with an entry of the same key moves
/// only that key's lookup; every other key resolves as before.
pub proof fn lemma_find_by_update<T>(s: Seq<T>, key: spec_fn(T) -> Seq<u8>, i: int, v: T, k: Seq<u8>)
    requires
        0 <= i < s.len(),
        key(v) == key(s[i]),
        forall|j: int| 0 <= j < i ==> key(#[trigger] s[j]) != key(s[i]),
    ensures
        find_by(s.update(i, v), key, k) == (if k == key(s[i]) {
            Some(v)
        } else {
            find_by(s, key, k)
        }),
    decreases i,
{
    if i == 0 {
        if k != key(s[0]) {
            assert(s.update(0, v).drop_first() =~= s.drop_first());
        }
    } else {
        assert(s.update(i, v).drop_first() =~= s.drop_first().update(i - 1, v));
        assert forall|j: int| 0 <= j < i - 1 implies key(#[trigger] s.drop_first()[j]) != key(
            s.drop_first()[i - 1],
        ) by {
            assert(s.drop_first()[j] == s[j + 1]);
            assert(s.drop_first()[i - 1] == s[i]);
        }
        lemma_find_by_update(s.drop_first(), key, i - 1, v, k);
        assert(s.drop_first()[i - 1] == s[i]);
        assert(s.update(i, v)[0] == s[0]);
    }
}

/// Appending an entry leaves every present key's lookup in place; only a key
/// absent before now resolves, to the new entry.
pub proof fn lemma_find_by_push<T>(s: Seq<T>, key: spec_fn(T) -> Seq<u8>, v: T, k: Seq<u8>)
    ensures
        find_by(s.push(v), key, k) == (if find_by(s, key, k) is Some {
            find_by(s, key, k)
        } else if key(v) == k {
            Some(v)
        } else {
            None::<T>
        }),
    decreases s.len(),
{
    if s.len() == 0 {
        assert(s.push(v)[0] == v);
        if key(v) == k {
            assert(find_by(s.push(v), key, k) == Some(v));
        } else {
            assert(s.push(v).drop_first() =~= Seq::<T>::empty());
            assert(find_by(s.push(v), key, k) == find_by(Seq::<T>::empty(), key, k));
            assert(find_by(s.push(v), key, k) is None);
        }
        assert(find_by(s, key, k) is None);
    } else {
        assert(s.push(v)[0] == s[0]);
        if key(s[0]) != k {
            assert(s.push(v).drop_first() =~= s.drop_first().push(v));
            lemma_find_by_push(s.drop_first(), key, v, k);
            assert(find_by(s.push(v), key, k) == find_by(s.drop_first().push(v), key, k));
            assert(find_by(s, key, k) == find_by(s.drop_first(), key, k));
        }
    }
}

/// Removing the only entry of a key empties that key's lookup and leaves
/// every other key's lookup in place.
pub proof fn lemma_find_by_remove<T>(s: Seq<T>, key: spec_fn(T) -> Seq<u8>, i: int, k: Seq<u8>)
    requires
        0 <= i < s.len(),
        forall|j: int| 0 <= j < s.len() && j != i ==> key(#[trigger] s[j]) != key(s[i]),
    ensures
        find_by(s.remove(i), key, k) == (if k == key(s[i]) {
            None::<T>
        } else {
            find_by(s, key, k)
        }),
    decreases i,
{
    if i == 0 {
        assert(s.remove(0) =~= s.drop_first());
        if k == key(s[0]) {
            assert forall|j: int| 0 <= j < s.drop_first().len() implies key(
                #[trigger] s.drop_first()[j],
            ) != k by {
                assert(s.drop_first()[j] == s[j + 1]);
            }
            lemma_find_by_none(s.drop_first(), key, k);
        }
    } else {
        assert(s.remove(i).drop_first() =~= s.drop_first().remove(i - 1));
        assert(s.remove(i)[0] == s[0]);
        assert forall|j: int| 0 <= j < s.drop_first().len() && j != i - 1 implies key(
            #[trigger] s.drop_first()[j],
        ) != key(s.drop_first()[i - 1]) by {
            assert(s.drop_first()[j] == s[j + 1]);
            assert(s.drop_first()[i - 1] == s[i]);
        }
        lemma_find_by_remove(s.drop_first(), key, i - 1, k);
        assert(s.drop_first()[i - 1] == s[i]);
    }
}

/// Replacing an entry with one of the same key keeps keys pairwise distinct.
pub proof fn lemma_unique_by_update<T>(s: Seq<T>, key: spec_fn(T) -> Seq<u8>, i: int, v: T)
    requires
        unique_by(s, key),
        0 <= i < s.len(),
        key(v) == key(s[i]),
    ensures
        unique_by(s.update(i, v), key),
{
    assert forall|a: int, b: int| 0 <= a < b < s.update(i, v).len() implies key(
        #[trigger] s.update(i, v)[a],
    ) != key(#[trigger] s.update(i, v)[b]) by {
        assert(key(s.update(i, v)[a]) == key(s[a]));
        assert(key(s.update(i, v)[b]) == key(s[b]));
    }
}

/// Appending an entry whose key is absent keeps keys pairwise distinct.
pub proof fn lemma_unique_by_push<T>(s: Seq<T>, key: spec_fn(T) -> Seq<u8>, v: T)
    requires
        unique_by(s, key),
        forall|j: int| 0 <= j < s.len() ==> key(#[trigger] s[j]) != key(v),
    ensures
        unique_by(s.push(v), key),
{
    assert forall|a: int, b: int| 0 <= a < b < s.push(v).len() implies key(
        #[trigger] s.push(v)[a],
    ) != key(#[trigger] s.push(v)[b]) by {
        assert(s.push(v)[a] == s[a]);
        if b < s.len() {
            assert(s.push(v)[b] == s[b]);
        } else {
            assert(s.push(v)[b] == v);
        }
    }
}

/// Removing an entry keeps keys pairwise distinct.
pub proof fn lemma_unique_by_remove<T>(s: Seq<T>, key: spec_fn(T) -> Seq<u8>, i: int)
    requires
        unique_by(s, key),
        0 <= i < s.len(),
    ensures
        unique_by(s.remove(i), key),
{
    assert forall|a: int, b: int| 0 <= a < b < s.remove(i).len() implies key(
        #[trigger] s.remove(i)[a],
    ) != key(#[trigger] s.remove(i)[b]) by {
        assert(s.remove(i)[a] == (if a < i {
            s[a]
        } else {
            s[a + 1]
        }));
        assert(s.remove(i)[b] == (if b < i {
            s[b]
        } else {
            s[b + 1]
        }));
    }
}

} // verus!
