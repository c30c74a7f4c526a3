use vstd::prelude::*;
use crate::model::{Graph, GraphView, KindView, NodeKind, has_node, first_with_id, str_eq};
use crate::seqs::{
    as_ints, indices_where, truncated, lemma_indices_where, lemma_indices_where_prefix, lemma_indices_where_all,
    lemma_indices_where_mono,
};
use crate::text::{name_matches, text_matches, lemma_contains_folds};

verus! {

/// The number of nodes that `list` gives where no limit is asked for.
pub const DEFAULT_LIST_LIMIT: usize = 50;

/// Why a query could not be answered.
#[derive(Debug)]
pub enum QueryError {
    /// A limit of zero was asked for.
    InvalidArgument,
    /// No node has the id given.
    NodeNotFound(String),
}

pub open spec fn kind_filter_view(kind: Option<NodeKind>) -> Option<KindView> {
    match kind {
        Some(k) => Some(k@),
        None => None,
    }
}

/// Whether node `i` passes the kind filter (where one is given) and the
/// visibility filter (where only public nodes are asked for).
pub open spec fn list_pred(g: GraphView, kind: Option<KindView>, public_only: bool) -> spec_fn(
    int,
) -> bool {
    |i: int|
        (kind is None || g.nodes[i].kind == kind->0) && (!public_only || g.nodes[i].public)
}

/// The positions that a listing gives: the nodes that pass both filters, in
/// the graph's order, cut to `limit`.
pub open spec fn listed(g: GraphView, kind: Option<KindView>, public_only: bool, limit: int) -> Seq<
    int,
> {
    truncated(indices_where(list_pred(g, kind, public_only), g.nodes.len() as int), limit)
}

/// Whether node `i`'s name holds the query under the case policy asked for.
pub open spec fn search_pred(g: GraphView, query: Seq<char>, case_sensitive: bool) -> spec_fn(
    int,
) -> bool {
    |i: int| name_matches(g.nodes[i].name, query, case_sensitive)
}

/// The positions that a search gives, in the graph's order.
pub open spec fn searched(g: GraphView, query: Seq<char>, case_sensitive: bool) -> Seq<int> {
    indices_where(search_pred(g, query, case_sensitive), g.nodes.len() as int)
}

pub open spec fn source_pred(g: GraphView, id: Seq<char>) -> spec_fn(int) -> bool {
    |e: int| g.edges[e].source == id
}

pub open spec fn target_pred(g: GraphView, id: Seq<char>) -> spec_fn(int) -> bool {
    |e: int| g.edges[e].target == id
}

/// Where the node with this id stands: the first node with it, or `None`
/// where no node has it.
pub open spec fn resolves_to(g: GraphView, id: Seq<char>, n: Option<usize>) -> bool {
    match n {
        Some(i) => first_with_id(g, id, i as int),
        None => !has_node(g, id),
    }
}

/// An edge at a node, with the node at its other end where one has that id.
#[derive(Debug, Clone, Copy)]
pub struct Relation {
    pub edge: usize,
    pub neighbor: Option<usize>,
}

/// A listing with no kind filter, all visibilities and a limit of `limit`
/// gives the first `limit` nodes of the graph (all of them where fewer), in
/// the graph's order: never more than `limit`, and a prefix of the node order.
pub proof fn lemma_unfiltered_listing_is_prefix(g: GraphView, limit: int)
    requires
        limit >= 1,
    ensures
        listed(g, None, false, limit).len() <= limit,
        listed(g, None, false, limit).len() == if g.nodes.len() <= limit {
            g.nodes.len() as int
        } else {
            limit
        },
        forall|k: int|
            0 <= k < listed(g, None, false, limit).len() ==> #[trigger] listed(
                g,
                None,
                false,
                limit,
            )[k] == k,
{
    let p = list_pred(g, None, false);
    let n = g.nodes.len() as int;
    assert forall|i: int| 0 <= i < n implies #[trigger] p(i) by {}
    lemma_indices_where_all(p, n);
}

/// Every node that a case-sensitive search finds, the same search without
/// case sensitivity finds too.
pub proof fn lemma_folded_search_finds_more(g: GraphView, query: Seq<char>)
    ensures
        forall|k: int|
            0 <= k < searched(g, query, true).len() ==> searched(g, query, false).contains(
                #[trigger] searched(g, query, true)[k],
            ),
{
    let p = search_pred(g, query, true);
    let q = search_pred(g, query, false);
    let n = g.nodes.len() as int;
    assert forall|i: int| 0 <= i < n && #[trigger] p(i) implies q(i) by {
        lemma_contains_folds(g.nodes[i].name, query);
    }
    lemma_indices_where_mono(p, q, n);
}

impl Graph {
    /// The position of the node with exactly this id; the first one where
    /// the graph holds the id twice.
    pub fn resolve(&self, id: &str) -> (r: Result<usize, QueryError>)
        requires
            self.wf(),
        ensures
            r is Ok <==> has_node(self@, id@),
            r matches Ok(i) ==> first_with_id(self@, id@, i as int),
            r matches Err(e) ==> e matches QueryError::NodeNotFound(m) && m@ == id@,
    {
        match self.index.find(&self.nodes, id) {
            Some(i) => Ok(i),
            None => {
                assert(!has_node(self@, id@));
                Err(QueryError::NodeNotFound(id.to_owned()))
            },
        }
    }

    /// The nodes of the given kind (any kind where none is given), only the
    /// public ones where `public_only`, in the graph's order, at most `limit`.
    pub fn list(&self, kind: Option<NodeKind>, public_only: bool, limit: usize) -> (r: Result<
        Vec<usize>,
        QueryError,
    >)
        ensures
            r is Err <==> limit == 0,
            r matches Err(e) ==> e is InvalidArgument,
            r matches Ok(v) ==> as_ints(v@) == listed(
                self@,
                kind_filter_view(kind),
                public_only,
                limit as int,
            ),
    {
        if limit == 0 {
            return Err(QueryError::InvalidArgument);
        }
        let ghost p = list_pred(self@, kind_filter_view(kind), public_only);
        let mut out: Vec<usize> = Vec::new();
        let mut i: usize = 0;
        while i < self.nodes.len() && out.len() < limit
            invariant
                i <= self.nodes@.len(),
                out@.len() <= limit,
                as_ints(out@) == indices_where(p, i as int),
                p == list_pred(self@, kind_filter_view(kind), public_only),
            decreases self.nodes@.len() - i,
        {
            let node = &self.nodes[i];
            let kind_ok = match &kind {
                Some(k) => node.kind.same_as(k),
                None => true,
            };
            if kind_ok && (!public_only || node.public) {
                assert(p(i as int));
                out.push(i);
            } else {
                assert(!p(i as int));
            }
            assert(as_ints(out@) == indices_where(p, i + 1));
            i = i + 1;
        }
        proof {
            let n = self.nodes@.len() as int;
            lemma_indices_where_prefix(p, i as int, n);
            let all = indices_where(p, n);
            if out@.len() < limit {
                assert(all == indices_where(p, i as int));
            } else {
                assert(all.len() >= limit);
                assert(all.take(limit as int) == indices_where(p, i as int));
                if all.len() == limit {
                    assert(all.take(limit as int) == all);
                }
            }
        }
        Ok(out)
    }

    /// The nodes whose name holds `query`, in the graph's order; when not
    /// `case_sensitive`, both sides are folded to lower case first.
    pub fn search(&self, query: &str, case_sensitive: bool) -> (r: Vec<usize>)
        ensures
            as_ints(r@) == searched(self@, query@, case_sensitive),
    {
        let ghost p = search_pred(self@, query@, case_sensitive);
        let mut out: Vec<usize> = Vec::new();
        let mut i: usize = 0;
        while i < self.nodes.len()
            invariant
                i <= self.nodes@.len(),
                as_ints(out@) == indices_where(p, i as int),
                p == search_pred(self@, query@, case_sensitive),
            decreases self.nodes@.len() - i,
        {
            if text_matches(self.nodes[i].name.as_str(), query, case_sensitive) {
                out.push(i);
            }
            assert(as_ints(out@) == indices_where(p, i + 1));
            i = i + 1;
        }
        out
    }

    /// Pairs each of the given edges with the node at its far end: the
    /// target where `outgoing`, else the source.
    fn with_neighbors(&self, edges: Vec<usize>, outgoing: bool) -> (r: Vec<Relation>)
        requires
            self.wf(),
            forall|k: int| 0 <= k < edges@.len() ==> #[trigger] edges@[k] < self@.edges.len(),
        ensures
            r@.len() == edges@.len(),
            forall|k: int|
                0 <= k < edges@.len() ==> (#[trigger] r@[k]).edge == edges@[k] && resolves_to(
                    self@,
                    if outgoing {
                        self@.edges[edges@[k] as int].target
                    } else {
                        self@.edges[edges@[k] as int].source
                    },
                    r@[k].neighbor,
                ),
    {
        let mut out: Vec<Relation> = Vec::new();
        let mut k: usize = 0;
        while k < edges.len()
            invariant
                self.wf(),
                k <= edges@.len(),
                out@.len() == k,
                forall|j: int| 0 <= j < edges@.len() ==> #[trigger] edges@[j] < self@.edges.len(),
                forall|j: int|
                    0 <= j < k ==> (#[trigger] out@[j]).edge == edges@[j] && resolves_to(
                        self@,
                        if outgoing {
                            self@.edges[edges@[j] as int].target
                        } else {
                            self@.edges[edges@[j] as int].source
                        },
                        out@[j].neighbor,
                    ),
            decreases edges@.len() - k,
        {
            let e = edges[k];
            let edge = &self.edges[e];
            let far = if outgoing {
                edge.target.as_str()
            } else {
                edge.source.as_str()
            };
            let neighbor = match self.resolve(far) {
                Ok(i) => Some(i),
                Err(_) => None,
            };
            out.push(Relation { edge: e, neighbor });
            k = k + 1;
        }
        out
    }

    /// The edges that leave the node with this id, in the graph's order,
    /// each with the node it arrives at where that node exists.
    pub fn outgoing(&self, id: &str) -> (r: Vec<Relation>)
        requires
            self.wf(),
        ensures
            r@.map_values(|x: Relation| x.edge as int) == indices_where(
                source_pred(self@, id@),
                self@.edges.len() as int,
            ),
            forall|k: int|
                0 <= k < r@.len() ==> resolves_to(
                    self@,
                    self@.edges[(#[trigger] r@[k]).edge as int].target,
                    r@[k].neighbor,
                ),
    {
        let es = self.edges_from(id);
        proof {
            lemma_indices_where(source_pred(self@, id@), self@.edges.len() as int);
            assert forall|k: int| 0 <= k < es@.len() implies #[trigger] es@[k] < self@.edges.len() by {
                assert(as_ints(es@)[k] == es@[k] as int);
            }
        }
        let ghost ev = es@;
        let r = self.with_neighbors(es, true);
        assert(r@.map_values(|x: Relation| x.edge as int) =~= as_ints(ev));
        r
    }

    /// The edges that arrive at the node with this id, in the graph's
    /// order, each with the node they leave where that node exists.
    pub fn incoming(&self, id: &str) -> (r: Vec<Relation>)
        requires
            self.wf(),
        ensures
            r@.map_values(|x: Relation| x.edge as int) == indices_where(
                target_pred(self@, id@),
                self@.edges.len() as int,
            ),
            forall|k: int|
                0 <= k < r@.len() ==> resolves_to(
                    self@,
                    self@.edges[(#[trigger] r@[k]).edge as int].source,
                    r@[k].neighbor,
                ),
    {
        let es = self.edges_to(id);
        proof {
            lemma_indices_where(target_pred(self@, id@), self@.edges.len() as int);
            assert forall|k: int| 0 <= k < es@.len() implies #[trigger] es@[k] < self@.edges.len() by {
                assert(as_ints(es@)[k] == es@[k] as int);
            }
        }
        let ghost ev = es@;
        let r = self.with_neighbors(es, false);
        assert(r@.map_values(|x: Relation| x.edge as int) =~= as_ints(ev));
        r
    }

    /// The edges that leave the node with this id, in the graph's order.
    pub fn edges_from(&self, id: &str) -> (r: Vec<usize>)
        ensures
            as_ints(r@) == indices_where(source_pred(self@, id@), self@.edges.len() as int),
    {
        let ghost p = source_pred(self@, id@);
        let mut out: Vec<usize> = Vec::new();
        let mut i: usize = 0;
        while i < self.edges.len()
            invariant
                i <= self.edges@.len(),
                as_ints(out@) == indices_where(p, i as int),
                p == source_pred(self@, id@),
            decreases self.edges@.len() - i,
        {
            if str_eq(self.edges[i].source.as_str(), id) {
                out.push(i);
            }
            assert(as_ints(out@) == indices_where(p, i + 1));
            i = i + 1;
        }
        out
    }

    /// The edges that arrive at the node with this id, in the graph's order.
    pub fn edges_to(&self, id: &str) -> (r: Vec<usize>)
        ensures
            as_ints(r@) == indices_where(target_pred(self@, id@), self@.edges.len() as int),
    {
        let ghost p = target_pred(self@, id@);
        let mut out: Vec<usize> = Vec::new();
        let mut i: usize = 0;
        while i < self.edges.len()
            invariant
                i <= self.edges@.len(),
                as_ints(out@) == indices_where(p, i as int),
                p == target_pred(self@, id@),
            decreases self.edges@.len() - i,
        {
            if str_eq(self.edges[i].target.as_str(), id) {
                out.push(i);
            }
            assert(as_ints(out@) == indices_where(p, i + 1));
            i = i + 1;
        }
        out
    }
}

} // verus!
