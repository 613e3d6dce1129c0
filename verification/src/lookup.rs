//! Finding the first item with a given key, and the first item that fails.

use vstd::prelude::*;

verus! {

/// Position of the first item of `keys` that equals `key`.
pub open spec fn first_position<K>(keys: Seq<K>, key: K) -> Option<int>
    decreases keys.len(),
{
    if keys.len() == 0 {
        None
    } else if keys[0] == key {
        Some(0int)
    } else {
        match first_position(keys.drop_first(), key) {
            Some(i) => Some(i + 1),
            None => None,
        }
    }
}

/// `i` is a position of `key` in `keys`, and no earlier position holds it.
pub open spec fn is_first_position<K>(keys: Seq<K>, key: K, i: int) -> bool {
    &&& 0 <= i < keys.len()
    &&& keys[i] == key
    &&& forall|j: int| 0 <= j < i ==> keys[j] != key
}

/// `first_position` finds the earliest position of the key, and finds none
/// exactly when the key does not occur.
pub proof fn lemma_first_position<K>(keys: Seq<K>, key: K)
    ensures
        match first_position(keys, key) {
            Some(i) => is_first_position(keys, key, i),
            None => forall|j: int| 0 <= j < keys.len() ==> keys[j] != key,
        },
    decreases keys.len(),
{
    if keys.len() > 0 && keys[0] != key {
        let rest = keys.drop_first();
        lemma_first_position(rest, key);
        match first_position(rest, key) {
            Some(i) => {
                assert forall|j: int| 0 <= j < i + 1 implies keys[j] != key by {
                    if j > 0 {
                        assert(rest[j - 1] == keys[j]);
                    }
                }
            },
            None => {
                assert forall|j: int| 0 <= j < keys.len() implies keys[j] != key by {
                    if j > 0 {
                        assert(rest[j - 1] == keys[j]);
                    }
                }
            },
        }
    }
}

/// A position that `is_first_position` accepts is the one that
/// `first_position` finds.
pub proof fn lemma_first_position_is<K>(keys: Seq<K>, key: K, i: int)
    requires
        is_first_position(keys, key, i),
    ensures
        first_position(keys, key) == Some(i),
{
    lemma_first_position(keys, key);
}

/// A key that occurs nowhere is not found.
pub proof fn lemma_first_position_none<K>(keys: Seq<K>, key: K)
    requires
        forall|j: int| 0 <= j < keys.len() ==> keys[j] != key,
    ensures
        first_position(keys, key) is None,
{
    lemma_first_position(keys, key);
}

/// Where no key occurs twice, every position of a key is its first.
pub proof fn lemma_first_position_unique<K>(keys: Seq<K>, key: K, i: int)
    requires
        keys.no_duplicates(),
        0 <= i < keys.len(),
        keys[i] == key,
    ensures
        first_position(keys, key) == Some(i),
{
    lemma_first_position(keys, key);
}

/// What `f` gives for the first item on which it gives anything.
pub open spec fn first_some<A, E>(items: Seq<A>, f: spec_fn(A) -> Option<E>) -> Option<E>
    decreases items.len(),
{
    if items.len() == 0 {
        None
    } else if f(items[0]) is Some {
        f(items[0])
    } else {
        first_some(items.drop_first(), f)
    }
}

/// `first_some` gives what `f` gives at the earliest position where it gives
/// anything, and nothing exactly when `f` gives nothing anywhere.
pub proof fn lemma_first_some<A, E>(items: Seq<A>, f: spec_fn(A) -> Option<E>)
    ensures
        match first_some(items, f) {
            Some(e) => exists|i: int|
                {
                    &&& 0 <= i < items.len()
                    &&& #[trigger] f(items[i]) == Some(e)
                    &&& forall|j: int| 0 <= j < i ==> #[trigger] f(items[j]) is None
                },
            None => forall|j: int| 0 <= j < items.len() ==> #[trigger] f(items[j]) is None,
        },
    decreases items.len(),
{
    if items.len() > 0 && f(items[0]) is None {
        let rest = items.drop_first();
        lemma_first_some(rest, f);
        match first_some(rest, f) {
            Some(e) => {
                let i = choose|i: int|
                    {
                        &&& 0 <= i < rest.len()
                        &&& #[trigger] f(rest[i]) == Some(e)
                        &&& forall|j: int| 0 <= j < i ==> #[trigger] f(rest[j]) is None
                    };
                assert(rest[i] == items[i + 1]);
                assert forall|j: int| 0 <= j < i + 1 implies #[trigger] f(items[j]) is None by {
                    if j > 0 {
                        assert(rest[j - 1] == items[j]);
                    }
                }
                assert(f(items[i + 1]) == Some(e));
            },
            None => {
                assert forall|j: int| 0 <= j < items.len() implies #[trigger] f(items[j]) is None by {
                    if j > 0 {
                        assert(rest[j - 1] == items[j]);
                    }
                }
            },
        }
    } else if items.len() > 0 {
        assert(f(items[0]) == first_some(items, f));
    }
}

/// If `f` gives nothing before position `i` and something there, that is
/// what `first_some` gives.
pub proof fn lemma_first_some_at<A, E>(items: Seq<A>, f: spec_fn(A) -> Option<E>, i: int)
    requires
        0 <= i < items.len(),
        f(items[i]) is Some,
        forall|j: int| 0 <= j < i ==> #[trigger] f(items[j]) is None,
    ensures
        first_some(items, f) == f(items[i]),
{
    lemma_first_some(items, f);
    match first_some(items, f) {
        Some(e) => {
            let k = choose|k: int|
                {
                    &&& 0 <= k < items.len()
                    &&& #[trigger] f(items[k]) == Some(e)
                    &&& forall|j: int| 0 <= j < k ==> #[trigger] f(items[j]) is None
                };
            if k < i {
                assert(f(items[k]) is None);
            } else if i < k {
                assert(f(items[i]) is None);
            }
        },
        None => {
            assert(f(items[i]) is None);
        },
    }
}

/// If `f` gives nothing anywhere, `first_some` gives nothing.
pub proof fn lemma_first_some_none<A, E>(items: Seq<A>, f: spec_fn(A) -> Option<E>)
    requires
        forall|j: int| 0 <= j < items.len() ==> #[trigger] f(items[j]) is None,
    ensures
        first_some(items, f) is None,
{
    lemma_first_some(items, f);
    if first_some(items, f) is Some {
        let e = first_some(items, f).unwrap();
        let k = choose|k: int|
            {
                &&& 0 <= k < items.len()
                &&& #[trigger] f(items[k]) == Some(e)
                &&& forall|j: int| 0 <= j < k ==> #[trigger] f(items[j]) is None
            };
        assert(f(items[k]) is None);
    }
}

} // verus!
