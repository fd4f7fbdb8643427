//! The mathematical model shared by every cache layer: a sequence of
//! (key, value) entries, searched from the front.
use vstd::prelude::*;

verus! {

/// The value of the first entry whose key is `k`.
pub open spec fn lookup<A, B>(s: Seq<(A, B)>, k: A) -> Option<B>
    decreases s.len(),
{
    if s.len() == 0 {
        None
    } else {
        match lookup(s.drop_last(), k) {
            Some(v) => Some(v),
            None => if s.last().0 == k {
                Some(s.last().1)
            } else {
                None
            },
        }
    }
}

/// The entries whose key does not satisfy `p`, in their order.
pub open spec fn drop_where<A, B>(s: Seq<(A, B)>, p: spec_fn(A) -> bool) -> Seq<(A, B)>
    decreases s.len(),
{
    if s.len() == 0 {
        s
    } else {
        let rest = drop_where(s.drop_last(), p);
        if p(s.last().0) {
            rest
        } else {
            rest.push(s.last())
        }
    }
}

/// Sum of `size` over the values of all entries.
pub open spec fn total<A, B>(s: Seq<(A, B)>, size: spec_fn(B) -> nat) -> nat
    decreases s.len(),
{
    if s.len() == 0 {
        0
    } else {
        total(s.drop_last(), size) + size(s.last().1)
    }
}

/// `n` capped at `usize::MAX`, as a saturating sum reports it.
pub open spec fn capped(n: nat) -> nat {
    if n <= usize::MAX {
        n
    } else {
        usize::MAX as nat
    }
}

/// No two entries share a key.
pub open spec fn keys_unique<A, B>(s: Seq<(A, B)>) -> bool {
    forall|i: int, j: int| 0 <= i < j < s.len() ==> s[i].0 != s[j].0
}

/// Appending an entry leaves earlier lookups alone and adds its own key.
pub proof fn lemma_lookup_push<A, B>(s: Seq<(A, B)>, e: (A, B), k: A)
    ensures
        lookup(s.push(e), k) == (match lookup(s, k) {
            Some(v) => Some(v),
            None => if e.0 == k {
                Some(e.1)
            } else {
                None
            },
        }),
{
    assert(s.push(e).drop_last() =~= s);
}

/// Lookup finds a key exactly when some entry holds it.
pub proof fn lemma_lookup_none<A, B>(s: Seq<(A, B)>, k: A)
    ensures
        lookup(s, k) is None <==> forall|i: int| 0 <= i < s.len() ==> s[i].0 != k,
    decreases s.len(),
{
    if s.len() > 0 {
        lemma_lookup_none(s.drop_last(), k);
        if lookup(s, k) is None {
            assert forall|i: int| 0 <= i < s.len() implies s[i].0 != k by {
                if i < s.len() - 1 {
                    assert(s.drop_last()[i] == s[i]);
                }
            }
        } else {
            if lookup(s.drop_last(), k) is Some {
                let i = choose|i: int| 0 <= i < s.drop_last().len() && s.drop_last()[i].0 == k;
                assert(s[i].0 == k);
            } else {
                assert(s[s.len() - 1].0 == k);
            }
        }
    }
}

/// A hit in a prefix is the hit of the whole sequence.
pub proof fn lemma_lookup_prefix<A, B>(s: Seq<(A, B)>, n: int, k: A)
    requires
        0 <= n <= s.len(),
        lookup(s.take(n), k) is Some,
    ensures
        lookup(s, k) == lookup(s.take(n), k),
    decreases s.len() - n,
{
    if n < s.len() {
        assert(s.take(n + 1).drop_last() =~= s.take(n));
        lemma_lookup_prefix(s, n + 1, k);
    } else {
        assert(s.take(n) =~= s);
    }
}

/// The entry at `i` is found when no earlier entry holds its key.
pub proof fn lemma_lookup_at<A, B>(s: Seq<(A, B)>, i: int)
    requires
        0 <= i < s.len(),
        lookup(s.take(i), s[i].0) is None,
    ensures
        lookup(s, s[i].0) == Some(s[i].1),
{
    assert(s.take(i + 1).drop_last() =~= s.take(i));
    lemma_lookup_prefix(s, i + 1, s[i].0);
}

/// Dropping the entries whose key satisfies `p` hides exactly those keys.
pub proof fn lemma_lookup_drop_where<A, B>(s: Seq<(A, B)>, p: spec_fn(A) -> bool, k: A)
    ensures
        lookup(drop_where(s, p), k) == if p(k) {
            None
        } else {
            lookup(s, k)
        },
    decreases s.len(),
{
    if s.len() > 0 {
        lemma_lookup_drop_where(s.drop_last(), p, k);
        let rest = drop_where(s.drop_last(), p);
        if !p(s.last().0) {
            lemma_lookup_push(rest, s.last(), k);
        }
    }
}

/// One more entry of the input extends the kept entries by at most that entry.
pub proof fn lemma_drop_where_step<A, B>(s: Seq<(A, B)>, p: spec_fn(A) -> bool, i: int)
    requires
        0 <= i < s.len(),
    ensures
        drop_where(s.take(i + 1), p) == if p(s[i].0) {
            drop_where(s.take(i), p)
        } else {
            drop_where(s.take(i), p).push(s[i])
        },
{
    assert(s.take(i + 1).drop_last() =~= s.take(i));
}

/// One more entry adds its size to the total.
pub proof fn lemma_total_step<A, B>(s: Seq<(A, B)>, size: spec_fn(B) -> nat, i: int)
    requires
        0 <= i < s.len(),
    ensures
        total(s.take(i + 1), size) == total(s.take(i), size) + size(s[i].1),
{
    assert(s.take(i + 1).drop_last() =~= s.take(i));
}

/// Every kept entry is an entry of the input.
pub proof fn lemma_drop_where_from<A, B>(s: Seq<(A, B)>, p: spec_fn(A) -> bool)
    ensures
        forall|i: int| 0 <= i < drop_where(s, p).len()
            ==> exists|j: int| 0 <= j < s.len() && s[j] == #[trigger] drop_where(s, p)[i],
    decreases s.len(),
{
    if s.len() > 0 {
        let t = s.drop_last();
        lemma_drop_where_from(t, p);
        let rest = drop_where(t, p);
        assert forall|i: int| 0 <= i < drop_where(s, p).len()
            implies exists|j: int| 0 <= j < s.len() && s[j] == #[trigger] drop_where(s, p)[i] by {
            if i < rest.len() {
                assert(drop_where(s, p)[i] == rest[i]);
                let j = choose|j: int| 0 <= j < t.len() && t[j] == rest[i];
                assert(s[j] == t[j]);
            } else {
                assert(s[s.len() - 1] == drop_where(s, p)[i]);
            }
        }
    }
}

/// Keeping entries in order keeps keys unique.
pub proof fn lemma_drop_where_unique<A, B>(s: Seq<(A, B)>, p: spec_fn(A) -> bool)
    requires
        keys_unique(s),
    ensures
        keys_unique(drop_where(s, p)),
        forall|i: int| 0 <= i < drop_where(s, p).len()
            ==> exists|j: int| 0 <= j < s.len() && s[j] == #[trigger] drop_where(s, p)[i],
    decreases s.len(),
{
    if s.len() > 0 {
        let t = s.drop_last();
        assert(keys_unique(t));
        lemma_drop_where_unique(t, p);
        let rest = drop_where(t, p);
        assert forall|i: int| 0 <= i < rest.len()
            implies exists|j: int| 0 <= j < s.len() && s[j] == #[trigger] rest[i] by {
            let j = choose|j: int| 0 <= j < t.len() && t[j] == rest[i];
            assert(s[j] == t[j]);
        }
        if !p(s.last().0) {
            let r = rest.push(s.last());
            assert forall|i: int, j: int| 0 <= i < j < r.len() implies r[i].0 != r[j].0 by {
                if j == r.len() - 1 {
                    let a = choose|a: int| 0 <= a < t.len() && t[a] == rest[i];
                    assert(s[a] == t[a]);
                    assert(s[s.len() - 1] == s.last());
                }
            }
            assert forall|i: int| 0 <= i < r.len()
                implies exists|j: int| 0 <= j < s.len() && s[j] == #[trigger] r[i] by {
                if i == r.len() - 1 {
                    assert(s[s.len() - 1] == r[i]);
                } else {
                    assert(r[i] == rest[i]);
                }
            }
        }
    }
}

/// An outcome that a poll cached under a new key is what the next poll with
/// the same key finds, so that poll reports the same outcome again without
/// doing the work a second time.
pub proof fn cached_outcome_is_found_again<A, B>(s: Seq<(A, B)>, k: A, v: B)
    requires
        lookup(s, k) is None,
    ensures
        lookup(s.push((k, v)), k) == Some(v),
{
    lemma_lookup_push(s, (k, v), k);
}

/// Caching an outcome under one key leaves what every other key finds
/// unchanged: requests that differ in size hint or texture options have
/// independent entries.
pub proof fn distinct_keys_are_independent<A, B>(s: Seq<(A, B)>, k: A, other: A, v: B)
    requires
        k != other,
    ensures
        lookup(s.push((k, v)), other) == lookup(s, other),
{
    lemma_lookup_push(s, (k, v), other);
}

/// Forgetting a URI drops its entries under every variant of the rest of the
/// key, and leaves the entries of other URIs as they were.
pub proof fn forget_drops_every_variant<V, B>(s: Seq<((Seq<char>, V), B)>, uri: Seq<char>, k: (Seq<char>, V))
    ensures
        k.0 == uri ==> lookup(drop_where(s, |key: (Seq<char>, V)| key.0 == uri), k) is None,
        k.0 != uri ==> lookup(drop_where(s, |key: (Seq<char>, V)| key.0 == uri), k) == lookup(s, k),
{
    lemma_lookup_drop_where(s, |key: (Seq<char>, V)| key.0 == uri, k);
}

} // verus!
