use vstd::prelude::*;
use std::collections::HashMap;
use crate::model::{Node, NodeView, str_eq};
use crate::seqs::{as_ints, indices_where, lemma_indices_where};

verus! {

broadcast use vstd::std_specs::hash::group_hash_axioms;

/// One step of the id hash: multiply by 31 and add the character's code,
/// modulo 2^64.
pub open spec fn hash_step(h: u64, c: char) -> u64 {
    ((h as int * 31 + c as u32 as int) % 0x1_0000_0000_0000_0000) as u64
}

/// The hash of an id, folded over its characters from the left.
pub open spec fn id_hash(s: Seq<char>) -> u64
    decreases s.len(),
{
    if s.len() == 0 {
        0
    } else {
        hash_step(id_hash(s.drop_last()), s.last())
    }
}

pub fn hash_id(s: &str) -> (r: u64)
    ensures
        r == id_hash(s@),
{
    let n = s.unicode_len();
    let mut h: u64 = 0;
    let mut i: usize = 0;
    while i < n
        invariant
            n == s@.len(),
            i <= n,
            h == id_hash(s@.take(i as int)),
        decreases n - i,
    {
        let c = s.get_char(i);
        let wide = (h as u128) * 31 + (c as u32 as u128);
        assert((h as u128) * 31 <= 0xffff_ffff_ffff_ffffu128 * 31) by (nonlinear_arith)
            requires
                h <= 0xffff_ffff_ffff_ffffu64,
        ;
        let next = (wide % 0x1_0000_0000_0000_0000u128) as u64;
        assert(s@.take(i + 1).drop_last() == s@.take(i as int));
        h = next;
        i = i + 1;
    }
    assert(s@.take(n as int) == s@);
    h
}

/// The views of a sequence of nodes.
pub open spec fn views(nodes: Seq<Node>) -> Seq<NodeView> {
    nodes.map_values(|n: Node| n@)
}

/// Whether node `i`'s id hashes to `h`.
pub open spec fn hash_pred(ns: Seq<NodeView>, h: u64) -> spec_fn(int) -> bool {
    |i: int| id_hash(ns[i].id) == h
}

/// Whether `i` is the position of the first node with this id.
pub open spec fn first_in(ns: Seq<NodeView>, id: Seq<char>, i: int) -> bool {
    0 <= i < ns.len() && ns[i].id == id && forall|j: int| 0 <= j < i ==> ns[j].id != id
}

/// A lookup table from node id to the position of its first node, built in
/// one pass over the nodes.
#[derive(Debug)]
pub struct NodeIndex {
    buckets: HashMap<u64, Vec<usize>>,
}

impl NodeIndex {
    /// Whether this table was built from a graph with these nodes.
    pub closed spec fn indexes(&self, ns: Seq<NodeView>) -> bool {
        &&& forall|h: u64| #[trigger]
            self.buckets@.contains_key(h) ==> as_ints(self.buckets@[h]@) == indices_where(
                hash_pred(ns, h),
                ns.len() as int,
            )
        &&& forall|h: u64|
            !self.buckets@.contains_key(h) ==> #[trigger] indices_where(
                hash_pred(ns, h),
                ns.len() as int,
            ).len() == 0
    }

    /// Builds the table for a sequence of nodes.
    pub fn build(nodes: &Vec<Node>) -> (r: NodeIndex)
        ensures
            r.indexes(views(nodes@)),
    {
        let ghost ns = views(nodes@);
        let mut buckets: HashMap<u64, Vec<usize>> = HashMap::new();
        let mut i: usize = 0;
        while i < nodes.len()
            invariant
                i <= nodes@.len(),
                ns == views(nodes@),
                forall|h: u64| #[trigger]
                    buckets@.contains_key(h) ==> as_ints(buckets@[h]@) == indices_where(
                        hash_pred(ns, h),
                        i as int,
                    ),
                forall|h: u64|
                    !buckets@.contains_key(h) ==> #[trigger] indices_where(
                        hash_pred(ns, h),
                        i as int,
                    ).len() == 0,
            decreases nodes@.len() - i,
        {
            let h = hash_id(nodes[i].id.as_str());
            proof {
                assert(hash_pred(ns, h)(i as int));
            }
            let ghost before = buckets@;
            let mut v = match buckets.remove(&h) {
                Some(v) => v,
                None => Vec::new(),
            };
            proof {
                assert(as_ints(v@) == indices_where(hash_pred(ns, h), i as int)) by {
                    if v@.len() == 0 {
                        assert(as_ints(v@) =~= Seq::<int>::empty());
                    }
                }
            }
            v.push(i);
            assert(as_ints(v@) == indices_where(hash_pred(ns, h), i + 1));
            buckets.insert(h, v);
            assert forall|k: u64| #[trigger] buckets@.contains_key(k) implies as_ints(
                buckets@[k]@,
            ) == indices_where(hash_pred(ns, k), i + 1) by {
                if k != h {
                    assert(before.contains_key(k));
                    assert(!hash_pred(ns, k)(i as int));
                }
            }
            assert forall|k: u64| !buckets@.contains_key(k) implies #[trigger] indices_where(
                hash_pred(ns, k),
                i + 1,
            ).len() == 0 by {
                assert(k != h);
                assert(!before.contains_key(k));
                assert(indices_where(hash_pred(ns, k), i as int).len() == 0);
                assert(!hash_pred(ns, k)(i as int));
            }
            i = i + 1;
        }
        NodeIndex { buckets }
    }

    /// The position of the first node with this id, or `None` where no node
    /// has it.
    pub fn find(&self, nodes: &Vec<Node>, id: &str) -> (r: Option<usize>)
        requires
            self.indexes(views(nodes@)),
        ensures
            match r {
                Some(i) => first_in(views(nodes@), id@, i as int),
                None => forall|j: int| 0 <= j < nodes@.len() ==> views(nodes@)[j].id != id@,
            },
    {
        let ghost ns = views(nodes@);
        let h = hash_id(id);
        let ghost p = hash_pred(ns, h);
        let ghost n = ns.len() as int;
        proof {
            lemma_indices_where(p, n);
        }
        match self.buckets.get(&h) {
            None => {
                proof {
                    assert forall|j: int| 0 <= j < n implies ns[j].id != id@ by {
                        if ns[j].id == id@ {
                            assert(p(j));
                            assert(indices_where(p, n).contains(j));
                        }
                    }
                }
                None
            },
            Some(v) => {
                assert(as_ints(v@) == indices_where(p, n));
                let mut k: usize = 0;
                while k < v.len()
                    invariant
                        as_ints(v@) == indices_where(p, n),
                        p == hash_pred(ns, h),
                        h == id_hash(id@),
                        n == ns.len(),
                        ns == views(nodes@),
                        k <= v@.len(),
                        forall|j: int| 0 <= j < k ==> ns[v@[j] as int].id != id@,
                        forall|j: int|
                            0 <= j < indices_where(p, n).len() ==> 0 <= #[trigger] indices_where(
                                p,
                                n,
                            )[j] < n && p(indices_where(p, n)[j]),
                        forall|a: int, b: int|
                            0 <= a < b < indices_where(p, n).len() ==> indices_where(p, n)[a]
                                < indices_where(p, n)[b],
                        forall|i: int| 0 <= i < n && #[trigger] p(i) ==> indices_where(
                            p,
                            n,
                        ).contains(i),
                    decreases v@.len() - k,
                {
                    let i = v[k];
                    assert(as_ints(v@)[k as int] == i as int);
                    if str_eq(nodes[i].id.as_str(), id) {
                        proof {
                            assert forall|j: int| 0 <= j < i implies ns[j].id != id@ by {
                                if ns[j].id == id@ {
                                    assert(p(j));
                                    let m = choose|m: int|
                                        0 <= m < indices_where(p, n).len() && indices_where(
                                            p,
                                            n,
                                        )[m] == j;
                                    assert(as_ints(v@)[m] == v@[m] as int);
                                    if m >= k {
                                        if m > k {
                                            assert(indices_where(p, n)[k as int] < indices_where(
                                                p,
                                                n,
                                            )[m]);
                                        }
                                    }
                                }
                            }
                        }
                        return Some(i);
                    }
                    k = k + 1;
                }
                proof {
                    assert forall|j: int| 0 <= j < n implies ns[j].id != id@ by {
                        if ns[j].id == id@ {
                            assert(p(j));
                            let m = choose|m: int|
                                0 <= m < indices_where(p, n).len() && indices_where(p, n)[m]
                                    == j;
                            assert(as_ints(v@)[m] == v@[m] as int);
                        }
                    }
                }
                None
            },
        }
    }
}

} // verus!
