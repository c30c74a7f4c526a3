use vstd::prelude::*;

verus! {

/// The positions of a vector, as integers.
pub open spec fn as_ints(v: Seq<usize>) -> Seq<int> {
    v.map_values(|i: usize| i as int)
}

/// The indices `i < n`, in increasing order, at which `p` holds.
pub open spec fn indices_where(p: spec_fn(int) -> bool, n: int) -> Seq<int>
    decreases n,
{
    if n <= 0 {
        Seq::empty()
    } else if p(n - 1) {
        indices_where(p, n - 1).push(n - 1)
    } else {
        indices_where(p, n - 1)
    }
}

/// `s` cut down to its first `limit` elements.
pub open spec fn truncated<T>(s: Seq<T>, limit: int) -> Seq<T> {
    if s.len() <= limit {
        s
    } else {
        s.take(limit)
    }
}

/// Each index is below `n`, the indices increase, and every index listed
/// satisfies `p`; every index below `n` that satisfies `p` is listed.
pub proof fn lemma_indices_where(p: spec_fn(int) -> bool, n: int)
    requires
        0 <= n,
    ensures
        indices_where(p, n).len() <= n,
        forall|k: int|
            0 <= k < indices_where(p, n).len() ==> 0 <= #[trigger] indices_where(p, n)[k] < n
                && p(indices_where(p, n)[k]),
        forall|j: int, k: int|
            0 <= j < k < indices_where(p, n).len() ==> indices_where(p, n)[j]
                < indices_where(p, n)[k],
        forall|i: int| 0 <= i < n && #[trigger] p(i) ==> indices_where(p, n).contains(i),
    decreases n,
{
    if n > 0 {
        lemma_indices_where(p, n - 1);
        let prev = indices_where(p, n - 1);
        if p(n - 1) {
            assert(indices_where(p, n) == prev.push(n - 1));
            assert forall|i: int| 0 <= i < n && #[trigger] p(i) implies indices_where(p, n).contains(i) by {
                if i < n - 1 {
                    let k = choose|k: int| 0 <= k < prev.len() && prev[k] == i;
                    assert(indices_where(p, n)[k] == i);
                } else {
                    assert(indices_where(p, n)[prev.len() as int] == i);
                }
            }
        }
    }
}

/// A shorter range gives a prefix of a longer one.
pub proof fn lemma_indices_where_prefix(p: spec_fn(int) -> bool, m: int, n: int)
    requires
        0 <= m <= n,
    ensures
        indices_where(p, m).len() <= indices_where(p, n).len(),
        indices_where(p, m) == indices_where(p, n).take(indices_where(p, m).len() as int),
    decreases n - m,
{
    if m < n {
        lemma_indices_where_prefix(p, m, n - 1);
        let a = indices_where(p, m);
        let b = indices_where(p, n - 1);
        if p(n - 1) {
            assert(b.push(n - 1).take(a.len() as int) == b.take(a.len() as int));
        }
    } else {
        assert(indices_where(p, n) == indices_where(p, n).take(indices_where(p, n).len() as int));
    }
}

/// Where `p` holds everywhere, the indices are `0, 1, ..., n - 1`.
pub proof fn lemma_indices_where_all(p: spec_fn(int) -> bool, n: int)
    requires
        0 <= n,
        forall|i: int| 0 <= i < n ==> #[trigger] p(i),
    ensures
        indices_where(p, n).len() == n,
        forall|k: int| 0 <= k < n ==> #[trigger] indices_where(p, n)[k] == k,
    decreases n,
{
    if n > 0 {
        lemma_indices_where_all(p, n - 1);
        assert(p(n - 1));
    }
}

/// Where `p` implies `q` everywhere, every index listed for `p` is listed for `q`.
pub proof fn lemma_indices_where_mono(p: spec_fn(int) -> bool, q: spec_fn(int) -> bool, n: int)
    requires
        0 <= n,
        forall|i: int| 0 <= i < n && #[trigger] p(i) ==> q(i),
    ensures
        forall|k: int|
            0 <= k < indices_where(p, n).len() ==> indices_where(q, n).contains(
                #[trigger] indices_where(p, n)[k],
            ),
{
    lemma_indices_where(p, n);
    lemma_indices_where(q, n);
}

} // verus!
