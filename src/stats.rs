use vstd::prelude::*;
use crate::model::{Graph, GraphView, KindView, has_node};
use crate::seqs::{indices_where, lemma_indices_where};

verus! {

/// Counts over one loaded graph.
#[derive(Debug)]
pub struct Statistics {
    pub total_nodes: usize,
    pub functions: usize,
    pub types: usize,
    pub modules: usize,
    pub files: usize,
    pub clusters: usize,
    pub other_kinds: usize,
    pub public_nodes: usize,
    pub private_nodes: usize,
    pub total_edges: usize,
    pub dangling_edges: usize,
}

/// How many indices below `n` satisfy `p`.
pub open spec fn count(p: spec_fn(int) -> bool, n: int) -> nat {
    indices_where(p, n).len()
}

pub open spec fn kind_pred(g: GraphView, k: KindView) -> spec_fn(int) -> bool {
    |i: int| g.nodes[i].kind == k
}

pub open spec fn other_pred(g: GraphView) -> spec_fn(int) -> bool {
    |i: int| g.nodes[i].kind is Other
}

pub open spec fn public_pred(g: GraphView) -> spec_fn(int) -> bool {
    |i: int| g.nodes[i].public
}

pub open spec fn private_pred(g: GraphView) -> spec_fn(int) -> bool {
    |i: int| !g.nodes[i].public
}

/// Whether edge `e` has an end that names no node.
pub open spec fn dangling_pred(g: GraphView) -> spec_fn(int) -> bool {
    |e: int| !has_node(g, g.edges[e].source) || !has_node(g, g.edges[e].target)
}

/// The counts of a graph.
pub open spec fn stats_of(g: GraphView) -> (nat, nat, nat, nat, nat, nat, nat, nat, nat, nat, nat) {
    let n = g.nodes.len() as int;
    (
        g.nodes.len(),
        count(kind_pred(g, KindView::Function), n),
        count(kind_pred(g, KindView::Type), n),
        count(kind_pred(g, KindView::Module), n),
        count(kind_pred(g, KindView::File), n),
        count(kind_pred(g, KindView::Cluster), n),
        count(other_pred(g), n),
        count(public_pred(g), n),
        count(private_pred(g), n),
        g.edges.len(),
        count(dangling_pred(g), g.edges.len() as int),
    )
}

impl Statistics {
    pub open spec fn as_tuple(&self) -> (nat, nat, nat, nat, nat, nat, nat, nat, nat, nat, nat) {
        (
            self.total_nodes as nat,
            self.functions as nat,
            self.types as nat,
            self.modules as nat,
            self.files as nat,
            self.clusters as nat,
            self.other_kinds as nat,
            self.public_nodes as nat,
            self.private_nodes as nat,
            self.total_edges as nat,
            self.dangling_edges as nat,
        )
    }
}

proof fn lemma_count_step(p: spec_fn(int) -> bool, i: int)
    requires
        0 <= i,
    ensures
        count(p, i + 1) == count(p, i) + if p(i) {
            1nat
        } else {
            0nat
        },
        count(p, i) <= i,
{
    lemma_indices_where(p, i);
}

/// Where six conditions split the positions below `n` (each position meets
/// exactly one), their counts add up to `n`.
proof fn lemma_split_counts(
    a: spec_fn(int) -> bool,
    b: spec_fn(int) -> bool,
    c: spec_fn(int) -> bool,
    d: spec_fn(int) -> bool,
    e: spec_fn(int) -> bool,
    f: spec_fn(int) -> bool,
    n: int,
)
    requires
        0 <= n,
        forall|i: int|
            0 <= i < n ==> (if #[trigger] a(i) { 1int } else { 0 }) + (if b(i) { 1int } else { 0 })
                + (if c(i) { 1int } else { 0 }) + (if d(i) { 1int } else { 0 }) + (if e(i) {
                1int
            } else {
                0
            }) + (if f(i) { 1int } else { 0 }) == 1,
    ensures
        count(a, n) + count(b, n) + count(c, n) + count(d, n) + count(e, n) + count(f, n) == n,
    decreases n,
{
    if n > 0 {
        lemma_split_counts(a, b, c, d, e, f, n - 1);
        lemma_count_step(a, n - 1);
        lemma_count_step(b, n - 1);
        lemma_count_step(c, n - 1);
        lemma_count_step(d, n - 1);
        lemma_count_step(e, n - 1);
        lemma_count_step(f, n - 1);
        assert(a(n - 1) || !a(n - 1));
    }
}

/// The counts per kind add up to the number of nodes, and no more edges
/// dangle than there are edges.
pub proof fn lemma_stats_consistent(g: GraphView)
    ensures
        stats_of(g).1 + stats_of(g).2 + stats_of(g).3 + stats_of(g).4 + stats_of(g).5
            + stats_of(g).6 == stats_of(g).0,
        stats_of(g).7 + stats_of(g).8 == stats_of(g).0,
        stats_of(g).10 <= stats_of(g).9,
{
    let n = g.nodes.len() as int;
    lemma_split_counts(
        kind_pred(g, KindView::Function),
        kind_pred(g, KindView::Type),
        kind_pred(g, KindView::Module),
        kind_pred(g, KindView::File),
        kind_pred(g, KindView::Cluster),
        other_pred(g),
        n,
    );
    let never = |i: int| false;
    lemma_split_counts(public_pred(g), private_pred(g), never, never, never, never, n);
    assert(count(never, n) == 0) by {
        lemma_indices_where(never, n);
        if count(never, n) > 0 {
            assert(never(indices_where(never, n)[0]));
        }
    }
    lemma_indices_where(dangling_pred(g), g.edges.len() as int);
}

impl Graph {
    /// Counts the nodes by kind and by visibility, and the edges that
    /// dangle, in one pass over the nodes and one over the edges (each end
    /// looked up in the graph's id table).
    pub fn statistics(&self) -> (r: Statistics)
        requires
            self.wf(),
        ensures
            r.as_tuple() == stats_of(self@),
    {
        let ghost g = self@;
        let ghost n = g.nodes.len() as int;
        let mut st = Statistics {
            total_nodes: self.nodes.len(),
            functions: 0,
            types: 0,
            modules: 0,
            files: 0,
            clusters: 0,
            other_kinds: 0,
            public_nodes: 0,
            private_nodes: 0,
            total_edges: self.edges.len(),
            dangling_edges: 0,
        };
        let mut i: usize = 0;
        while i < self.nodes.len()
            invariant
                g == self@,
                i <= self.nodes@.len(),
                st.total_nodes == self.nodes@.len(),
                st.total_edges == self.edges@.len(),
                st.dangling_edges == 0,
                st.functions == count(kind_pred(g, KindView::Function), i as int),
                st.types == count(kind_pred(g, KindView::Type), i as int),
                st.modules == count(kind_pred(g, KindView::Module), i as int),
                st.files == count(kind_pred(g, KindView::File), i as int),
                st.clusters == count(kind_pred(g, KindView::Cluster), i as int),
                st.other_kinds == count(other_pred(g), i as int),
                st.public_nodes == count(public_pred(g), i as int),
                st.private_nodes == count(private_pred(g), i as int),
            decreases self.nodes@.len() - i,
        {
            proof {
                lemma_count_step(kind_pred(g, KindView::Function), i as int);
                lemma_count_step(kind_pred(g, KindView::Type), i as int);
                lemma_count_step(kind_pred(g, KindView::Module), i as int);
                lemma_count_step(kind_pred(g, KindView::File), i as int);
                lemma_count_step(kind_pred(g, KindView::Cluster), i as int);
                lemma_count_step(other_pred(g), i as int);
                lemma_count_step(public_pred(g), i as int);
                lemma_count_step(private_pred(g), i as int);
            }
            let node = &self.nodes[i];
            match node.kind {
                crate::model::NodeKind::Function => st.functions = st.functions + 1,
                crate::model::NodeKind::Type => st.types = st.types + 1,
                crate::model::NodeKind::Module => st.modules = st.modules + 1,
                crate::model::NodeKind::File => st.files = st.files + 1,
                crate::model::NodeKind::Cluster => st.clusters = st.clusters + 1,
                crate::model::NodeKind::Other(_) => st.other_kinds = st.other_kinds + 1,
            }
            if node.public {
                st.public_nodes = st.public_nodes + 1;
            } else {
                st.private_nodes = st.private_nodes + 1;
            }
            i = i + 1;
        }
        let mut e: usize = 0;
        while e < self.edges.len()
            invariant
                g == self@,
                self.wf(),
                e <= self.edges@.len(),
                st.total_nodes == self.nodes@.len(),
                st.total_edges == self.edges@.len(),
                st.functions == count(kind_pred(g, KindView::Function), n),
                st.types == count(kind_pred(g, KindView::Type), n),
                st.modules == count(kind_pred(g, KindView::Module), n),
                st.files == count(kind_pred(g, KindView::File), n),
                st.clusters == count(kind_pred(g, KindView::Cluster), n),
                st.other_kinds == count(other_pred(g), n),
                st.public_nodes == count(public_pred(g), n),
                st.private_nodes == count(private_pred(g), n),
                st.dangling_edges == count(dangling_pred(g), e as int),
                n == g.nodes.len(),
            decreases self.edges@.len() - e,
        {
            proof {
                lemma_count_step(dangling_pred(g), e as int);
            }
            let edge = &self.edges[e];
            let from = self.resolve(edge.source.as_str());
            let to = self.resolve(edge.target.as_str());
            if from.is_err() || to.is_err() {
                st.dangling_edges = st.dangling_edges + 1;
            }
            e = e + 1;
        }
        st
    }
}

} // verus!
