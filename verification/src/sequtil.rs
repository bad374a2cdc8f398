//! Sequence helpers shared by the peer registry and the session table:
//! key-uniqueness and an order-preserving removal/retention operation with
//! the lemmas the registries' proofs need.

use vstd::prelude::*;

verus! {

/// No two elements of `s` share a key.
pub open spec fn unique_by<A, K>(s: Seq<A>, key: spec_fn(A) -> K) -> bool {
    forall|i: int, j: int| 0 <= i < j < s.len() ==> key(s[i]) != key(s[j])
}

/// The elements of `s` satisfying `pred`, in order.
pub open spec fn keep_where<A>(s: Seq<A>, pred: spec_fn(A) -> bool) -> Seq<A>
    decreases s.len(),
{
    if s.len() == 0 {
        s
    } else {
        let rest = keep_where(s.drop_first(), pred);
        if pred(s[0]) {
            seq![s[0]] + rest
        } else {
            rest
        }
    }
}

/// Retention never grows the sequence.
pub proof fn lemma_keep_where_len<A>(s: Seq<A>, pred: spec_fn(A) -> bool)
    ensures
        keep_where(s, pred).len() <= s.len(),
    decreases s.len(),
{
    if s.len() > 0 {
        lemma_keep_where_len(s.drop_first(), pred);
    }
}

/// Every retained element satisfies the predicate.
pub proof fn lemma_keep_where_pred<A>(s: Seq<A>, pred: spec_fn(A) -> bool)
    ensures
        forall|k: int|
            0 <= k < keep_where(s, pred).len() ==> pred(#[trigger] keep_where(s, pred)[k]),
    decreases s.len(),
{
    if s.len() > 0 {
        lemma_keep_where_pred(s.drop_first(), pred);
        let rest = keep_where(s.drop_first(), pred);
        let out = keep_where(s, pred);
        assert forall|k: int| #![trigger out[k]] 0 <= k < out.len() implies pred(out[k]) by {
            if pred(s[0]) {
                if k > 0 {
                    assert(out[k] == rest[k - 1]);
                }
            } else {
                assert(out[k] == rest[k]);
            }
        }
    }
}

/// Every retained element occurs in the original sequence.
pub proof fn lemma_keep_where_elements<A>(s: Seq<A>, pred: spec_fn(A) -> bool)
    ensures
        forall|k: int|
            0 <= k < keep_where(s, pred).len() ==> exists|j: int|
                0 <= j < s.len() && s[j] == #[trigger] keep_where(s, pred)[k],
    decreases s.len(),
{
    if s.len() > 0 {
        lemma_keep_where_elements(s.drop_first(), pred);
        let rest = keep_where(s.drop_first(), pred);
        let out = keep_where(s, pred);
        assert forall|k: int| #![trigger out[k]] 0 <= k < out.len() implies exists|j: int|
            0 <= j < s.len() && #[trigger] s[j] == out[k] by {
            if pred(s[0]) && k == 0 {
                assert(s[0] == out[0]);
            } else {
                let k2: int = if pred(s[0]) {
                    k - 1
                } else {
                    k
                };
                assert(rest[k2] == out[k]);
                let j = choose|j: int|
                    0 <= j < s.drop_first().len() && s.drop_first()[j] == rest[k2];
                assert(s[j + 1] == out[k]);
            }
        }
    }
}

/// Every original element satisfying the predicate is retained.
pub proof fn lemma_keep_where_complete<A>(s: Seq<A>, pred: spec_fn(A) -> bool)
    ensures
        forall|j: int|
            0 <= j < s.len() && pred(#[trigger] s[j]) ==> keep_where(s, pred).contains(s[j]),
    decreases s.len(),
{
    if s.len() > 0 {
        lemma_keep_where_complete(s.drop_first(), pred);
        let rest = keep_where(s.drop_first(), pred);
        let out = keep_where(s, pred);
        assert forall|j: int| 0 <= j < s.len() && pred(s[j]) implies out.contains(s[j]) by {
            if j == 0 {
                assert(out[0] == s[0]);
            } else {
                assert(s.drop_first()[j - 1] == s[j]);
                assert(rest.contains(s[j]));
                let k = choose|k: int| 0 <= k < rest.len() && rest[k] == s[j];
                if pred(s[0]) {
                    assert(out[k + 1] == s[j]);
                } else {
                    assert(out[k] == s[j]);
                }
            }
        }
    }
}

/// Retention preserves key-uniqueness.
pub proof fn lemma_keep_where_unique_by<A, K>(
    s: Seq<A>,
    pred: spec_fn(A) -> bool,
    key: spec_fn(A) -> K,
)
    requires
        unique_by(s, key),
    ensures
        unique_by(keep_where(s, pred), key),
    decreases s.len(),
{
    if s.len() > 0 {
        assert(unique_by(s.drop_first(), key)) by {
            assert forall|i: int, j: int|
                0 <= i < j < s.drop_first().len() implies key(s.drop_first()[i]) != key(
                s.drop_first()[j],
            ) by {
                assert(s.drop_first()[i] == s[i + 1]);
                assert(s.drop_first()[j] == s[j + 1]);
            }
        }
        lemma_keep_where_unique_by(s.drop_first(), pred, key);
        lemma_keep_where_elements(s.drop_first(), pred);
        let rest = keep_where(s.drop_first(), pred);
        let out = keep_where(s, pred);
        if pred(s[0]) {
            assert forall|a: int, b: int| 0 <= a < b < out.len() implies key(out[a]) != key(
                out[b],
            ) by {
                if a == 0 {
                    assert(out[b] == rest[b - 1]);
                    let j = choose|j: int|
                        0 <= j < s.drop_first().len() && s.drop_first()[j] == rest[b - 1];
                    assert(s[j + 1] == out[b]);
                    assert(key(s[0]) != key(s[j + 1]));
                } else {
                    assert(out[a] == rest[a - 1]);
                    assert(out[b] == rest[b - 1]);
                }
            }
        }
    }
}

/// Retention distributes over concatenation.
pub proof fn lemma_keep_where_distributes_add<A>(a: Seq<A>, b: Seq<A>, pred: spec_fn(A) -> bool)
    ensures
        keep_where(a + b, pred) == keep_where(a, pred) + keep_where(b, pred),
    decreases a.len(),
{
    if a.len() == 0 {
        assert(a + b =~= b);
        assert(keep_where(a, pred) + keep_where(b, pred) =~= keep_where(b, pred));
    } else {
        assert((a + b).len() > 0);
        assert((a + b)[0] == a[0]);
        assert((a + b).drop_first() =~= a.drop_first() + b);
        lemma_keep_where_distributes_add(a.drop_first(), b, pred);
        if pred(a[0]) {
            assert(keep_where(a + b, pred) == seq![a[0]] + keep_where(a.drop_first() + b, pred));
            assert(keep_where(a, pred) == seq![a[0]] + keep_where(a.drop_first(), pred));
            assert(seq![a[0]] + (keep_where(a.drop_first(), pred) + keep_where(b, pred)) =~= (
            seq![a[0]] + keep_where(a.drop_first(), pred)) + keep_where(b, pred));
        } else {
            assert(keep_where(a + b, pred) == keep_where(a.drop_first() + b, pred));
            assert(keep_where(a, pred) == keep_where(a.drop_first(), pred));
        }
    }
}

/// Retention on a single element keeps or drops exactly that element.
pub proof fn lemma_keep_where_singleton<A>(x: A, pred: spec_fn(A) -> bool)
    ensures
        pred(x) ==> keep_where(seq![x], pred) == seq![x],
        !pred(x) ==> keep_where(seq![x], pred) == Seq::<A>::empty(),
{
    let s = seq![x];
    let rest = s.drop_first();
    assert(rest =~= Seq::<A>::empty());
    assert(keep_where(rest, pred) == rest);
    if pred(s[0]) {
        assert(keep_where(s, pred) =~= seq![x]);
    } else {
        assert(keep_where(s, pred) =~= Seq::<A>::empty());
    }
}

/// Removing the one element that fails the predicate is the same as
/// retention, when every other element satisfies it.
pub proof fn lemma_keep_where_remove_one<A>(s: Seq<A>, pred: spec_fn(A) -> bool, i: int)
    requires
        0 <= i < s.len(),
        !pred(s[i]),
        forall|j: int| 0 <= j < s.len() && j != i ==> pred(#[trigger] s[j]),
    ensures
        keep_where(s, pred) == s.remove(i),
{
    let pre = s.subrange(0, i);
    let mid = seq![s[i]];
    let post = s.subrange(i + 1, s.len() as int);
    assert(s =~= (pre + mid) + post);
    lemma_keep_where_distributes_add(pre + mid, post, pred);
    lemma_keep_where_distributes_add(pre, mid, pred);
    assert forall|j: int| 0 <= j < pre.len() implies pred(#[trigger] pre[j]) by {
        assert(pre[j] == s[j]);
    }
    assert forall|j: int| 0 <= j < post.len() implies pred(#[trigger] post[j]) by {
        assert(post[j] == s[j + i + 1]);
    }
    lemma_keep_where_all(pre, pred);
    lemma_keep_where_all(post, pred);
    lemma_keep_where_singleton(s[i], pred);
    assert(keep_where(s, pred) =~= pre + post);
    assert(s.remove(i) =~= pre + post);
}

/// Retaining with an everywhere-true predicate is the identity.
pub proof fn lemma_keep_where_all<A>(s: Seq<A>, pred: spec_fn(A) -> bool)
    requires
        forall|j: int| 0 <= j < s.len() ==> pred(#[trigger] s[j]),
    ensures
        keep_where(s, pred) == s,
    decreases s.len(),
{
    if s.len() == 0 {
    } else {
        assert forall|j: int| 0 <= j < s.drop_first().len() implies pred(
            #[trigger] s.drop_first()[j],
        ) by {
            assert(s.drop_first()[j] == s[j + 1]);
        }
        lemma_keep_where_all(s.drop_first(), pred);
        assert(keep_where(s, pred) =~= s);
    }
}

} // verus!
