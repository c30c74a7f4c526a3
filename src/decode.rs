use vstd::prelude::*;
use crate::json::{Json, field, str_field, get_field, get_str};
use crate::model::{Edge, EdgeView, Graph, GraphView, Node, NodeKind, NodeView, kind_of_text};
use crate::index::{NodeIndex, first_in, views};

verus! {

/// The node that a member of the `nodes` array describes: an object with a
/// non-empty string `id`, string `kind` and `name`, and, where present, a
/// boolean `public` (absent means not public).
pub open spec fn node_model(j: Json) -> Option<NodeView> {
    match j {
        Json::Object(fs) => {
            let id = str_field(fs@, "id"@);
            let kind = str_field(fs@, "kind"@);
            let name = str_field(fs@, "name"@);
            let public = field(fs@, "public"@);
            if id is Some && id->0.len() > 0 && kind is Some && name is Some && (public is None
                || public->0 is Bool) {
                Some(
                    NodeView {
                        id: id->0,
                        kind: kind_of_text(kind->0),
                        name: name->0,
                        public: match public {
                            Some(Json::Bool(b)) => b,
                            _ => false,
                        },
                    },
                )
            } else {
                None
            }
        },
        _ => None,
    }
}

/// The edge that a member of the `edges` array describes: an object with
/// string `source` and `target`, and a string `kind` where present (absent
/// means the empty text).
pub open spec fn edge_model(j: Json) -> Option<EdgeView> {
    match j {
        Json::Object(fs) => {
            let source = str_field(fs@, "source"@);
            let target = str_field(fs@, "target"@);
            let kind = field(fs@, "kind"@);
            if source is Some && target is Some && (kind is None || kind->0 is Str) {
                Some(
                    EdgeView {
                        source: source->0,
                        target: target->0,
                        kind: match kind {
                            Some(Json::Str(k)) => k@,
                            _ => Seq::empty(),
                        },
                    },
                )
            } else {
                None
            }
        },
        _ => None,
    }
}

pub open spec fn all_nodes(items: Seq<Json>) -> bool {
    forall|k: int| 0 <= k < items.len() ==> (#[trigger] node_model(items[k])) is Some
}

pub open spec fn all_edges(items: Seq<Json>) -> bool {
    forall|k: int| 0 <= k < items.len() ==> (#[trigger] edge_model(items[k])) is Some
}

/// The `edges` member of a graph document: an array of edges, where present.
pub open spec fn edges_part(fs: Seq<(String, Json)>) -> Option<Seq<EdgeView>> {
    match field(fs, "edges"@) {
        None => Some(Seq::empty()),
        Some(Json::Array(items)) => if all_edges(items@) {
            Some(items@.map_values(|x: Json| edge_model(x)->0))
        } else {
            None
        },
        _ => None,
    }
}

/// Whether record `i` is the first with its id.
pub open spec fn is_first_record(ns: Seq<NodeView>, i: int) -> bool {
    forall|j: int| 0 <= j < i ==> ns[j].id != ns[i].id
}

/// The records among the first `n` that are the first with their id, in order.
pub open spec fn kept_records(ns: Seq<NodeView>, n: int) -> Seq<NodeView>
    decreases n,
{
    if n <= 0 {
        Seq::empty()
    } else if is_first_record(ns, n - 1) {
        kept_records(ns, n - 1).push(ns[n - 1])
    } else {
        kept_records(ns, n - 1)
    }
}

/// The ids of the records among the first `n` that repeat an earlier id, in order.
pub open spec fn repeated_records(ns: Seq<NodeView>, n: int) -> Seq<Seq<char>>
    decreases n,
{
    if n <= 0 {
        Seq::empty()
    } else if is_first_record(ns, n - 1) {
        repeated_records(ns, n - 1)
    } else {
        repeated_records(ns, n - 1).push(ns[n - 1].id)
    }
}

/// Every node record of a graph document, where they are all well formed.
pub open spec fn node_records(j: Json) -> Option<Seq<NodeView>> {
    match j {
        Json::Object(fs) => match field(fs@, "nodes"@) {
            Some(Json::Array(items)) => if all_nodes(items@) && edges_part(fs@) is Some {
                Some(items@.map_values(|x: Json| node_model(x)->0))
            } else {
                None
            },
            _ => None,
        },
        _ => None,
    }
}

/// The graph that a graph document describes: an object whose `nodes` is an
/// array of nodes and whose `edges`, where present, is an array of edges.
/// Where records share an id, only the first of them is kept.
pub open spec fn graph_model(j: Json) -> Option<GraphView> {
    match (j, node_records(j)) {
        (Json::Object(fs), Some(ns)) => Some(
            GraphView { nodes: kept_records(ns, ns.len() as int), edges: edges_part(fs@)->0 },
        ),
        _ => None,
    }
}

/// The ids of the records that a graph document repeats, dropped on load.
pub open spec fn repeated_ids(j: Json) -> Seq<Seq<char>> {
    match node_records(j) {
        Some(ns) => repeated_records(ns, ns.len() as int),
        None => Seq::empty(),
    }
}

/// No two records kept share an id, and each of them is one of the records.
pub proof fn lemma_kept_records(ns: Seq<NodeView>, n: int)
    requires
        0 <= n <= ns.len(),
    ensures
        forall|k: int|
            0 <= k < kept_records(ns, n).len() ==> exists|j: int|
                0 <= j < n && #[trigger] kept_records(ns, n)[k] == ns[j],
        forall|a: int, b: int|
            0 <= a < b < kept_records(ns, n).len() ==> kept_records(ns, n)[a].id != kept_records(
                ns,
                n,
            )[b].id,
    decreases n,
{
    if n > 0 {
        lemma_kept_records(ns, n - 1);
        let prev = kept_records(ns, n - 1);
        if is_first_record(ns, n - 1) {
            let cur = kept_records(ns, n);
            assert(cur == prev.push(ns[n - 1]));
            assert forall|k: int| 0 <= k < cur.len() implies exists|j: int|
                0 <= j < n && #[trigger] cur[k] == ns[j] by {
                if k < prev.len() {
                    let j = choose|j: int| 0 <= j < n - 1 && prev[k] == ns[j];
                    assert(cur[k] == ns[j]);
                } else {
                    assert(cur[k] == ns[n - 1]);
                }
            }
            assert forall|a: int, b: int| 0 <= a < b < cur.len() implies cur[a].id != cur[b].id by {
                if b == prev.len() {
                    assert(prev[a] == cur[a]);
                    let j = choose|j: int| 0 <= j < n - 1 && prev[a] == ns[j];
                    assert(ns[j].id != ns[n - 1].id);
                } else {
                    assert(prev[a] == cur[a] && prev[b] == cur[b]);
                }
            }
        }
    }
}

/// Every id of a loaded graph names exactly one of its nodes.
pub proof fn lemma_loaded_ids_unique(j: Json)
    requires
        graph_model(j) is Some,
    ensures
        forall|a: int, b: int|
            0 <= a < b < graph_model(j)->0.nodes.len() ==> graph_model(j)->0.nodes[a].id
                != graph_model(j)->0.nodes[b].id,
{
    let ns = node_records(j)->0;
    lemma_kept_records(ns, ns.len() as int);
}

/// The elements of `v` in the opposite order.
pub fn reversed<T>(v: Vec<T>) -> (r: Vec<T>)
    ensures
        r@.len() == v@.len(),
        forall|k: int| 0 <= k < v@.len() ==> #[trigger] r@[k] == v@[v@.len() - 1 - k],
{
    let ghost orig = v@;
    let mut v = v;
    let mut out: Vec<T> = Vec::new();
    while v.len() > 0
        invariant
            v@.len() + out@.len() == orig.len(),
            v@ == orig.take(v@.len() as int),
            forall|k: int| 0 <= k < out@.len() ==> #[trigger] out@[k] == orig[orig.len() - 1 - k],
        decreases v@.len(),
    {
        let x = v.pop().unwrap();
        out.push(x);
    }
    out
}

/// Reads one node; the node's members stay with it as its attributes.
pub fn decode_node(j: Json) -> (r: Option<Node>)
    ensures
        match r {
            Some(n) => node_model(j) == Some(n@),
            None => node_model(j) is None,
        },
{
    proof {
        reveal_strlit("id");
        reveal_strlit("kind");
        reveal_strlit("name");
        reveal_strlit("public");
    }
    match j {
        Json::Object(fs) => {
            let id = match get_str(&fs, "id") {
                Some(s) => s,
                None => return None,
            };
            if id.as_str().unicode_len() == 0 {
                return None;
            }
            let kind = match get_str(&fs, "kind") {
                Some(s) => NodeKind::from_text(s.as_str()),
                None => return None,
            };
            let name = match get_str(&fs, "name") {
                Some(s) => s,
                None => return None,
            };
            let public = match get_field(&fs, "public") {
                None => false,
                Some(Json::Bool(b)) => *b,
                Some(_) => return None,
            };
            Some(Node { id, kind, name, public, attributes: fs })
        },
        _ => None,
    }
}

/// Reads one edge.
pub fn decode_edge(j: &Json) -> (r: Option<Edge>)
    ensures
        match r {
            Some(e) => edge_model(*j) == Some(e@),
            None => edge_model(*j) is None,
        },
{
    proof {
        reveal_strlit("source");
        reveal_strlit("target");
        reveal_strlit("kind");
    }
    match j {
        Json::Object(fs) => {
            let source = match get_str(fs, "source") {
                Some(s) => s,
                None => return None,
            };
            let target = match get_str(fs, "target") {
                Some(s) => s,
                None => return None,
            };
            let kind = match get_field(fs, "kind") {
                None => String::new(),
                Some(Json::Str(k)) => k.clone(),
                Some(_) => return None,
            };
            Some(Edge { source, target, kind })
        },
        _ => None,
    }
}

/// Reads every node of the array, in order, or none where one is malformed.
pub fn decode_nodes(items: Vec<Json>) -> (r: Option<Vec<Node>>)
    ensures
        r is Some <==> all_nodes(items@),
        r matches Some(v) ==> v@.map_values(|n: Node| n@) == items@.map_values(
            |x: Json| node_model(x)->0,
        ),
{
    let ghost orig = items@;
    let mut rest = reversed(items);
    let mut out: Vec<Node> = Vec::new();
    while rest.len() > 0
        invariant
            orig == items@,
            rest@.len() + out@.len() == orig.len(),
            forall|k: int|
                0 <= k < rest@.len() ==> #[trigger] rest@[k] == orig[orig.len() - 1 - k],
            forall|k: int|
                0 <= k < out@.len() ==> node_model(orig[k]) == Some(#[trigger] out@[k]@),
        decreases rest@.len(),
    {
        let j = rest.pop().unwrap();
        assert(j == orig[out@.len() as int]);
        match decode_node(j) {
            Some(n) => out.push(n),
            None => {
                let ghost idx = out@.len() as int;
                assert(node_model(orig[idx]) is None);
                assert(!all_nodes(orig));
                return None;
            },
        }
    }
    assert(out@.map_values(|n: Node| n@) =~= orig.map_values(|x: Json| node_model(x)->0));
    assert(all_nodes(orig)) by {
        assert forall|k: int| 0 <= k < orig.len() implies (#[trigger] node_model(orig[k])) is Some by {
            assert(node_model(orig[k]) == Some(out@[k]@));
        }
    }
    Some(out)
}

/// Reads every edge of the array, in order, or none where one is malformed.
pub fn decode_edges(items: &Vec<Json>) -> (r: Option<Vec<Edge>>)
    ensures
        r is Some <==> all_edges(items@),
        r matches Some(v) ==> v@.map_values(|e: Edge| e@) == items@.map_values(
            |x: Json| edge_model(x)->0,
        ),
{
    let mut out: Vec<Edge> = Vec::new();
    let mut i: usize = 0;
    while i < items.len()
        invariant
            i <= items@.len(),
            out@.len() == i,
            forall|k: int| 0 <= k < i ==> edge_model(items@[k]) == Some(#[trigger] out@[k]@),
        decreases items@.len() - i,
    {
        match decode_edge(&items[i]) {
            Some(e) => out.push(e),
            None => {
                assert(edge_model(items@[i as int]) is None);
                assert(!all_edges(items@));
                return None;
            },
        }
        i = i + 1;
    }
    assert(out@.map_values(|e: Edge| e@) =~= items@.map_values(|x: Json| edge_model(x)->0));
    assert(all_edges(items@)) by {
        assert forall|k: int| 0 <= k < items@.len() implies (#[trigger] edge_model(items@[k])) is Some by {
            assert(edge_model(items@[k]) == Some(out@[k]@));
        }
    }
    Some(out)
}

/// Takes out the value of the first member named `key`.
pub fn take_field(fs: &mut Vec<(String, Json)>, key: &str) -> (r: Option<Json>)
    ensures
        r == field(old(fs)@, key@),
{
    let mut i: usize = 0;
    assert(fs@.subrange(0, fs@.len() as int) == fs@);
    while i < fs.len()
        invariant
            i <= fs@.len(),
            fs@ == old(fs)@,
            field(fs@, key@) == field(fs@.subrange(i as int, fs@.len() as int), key@),
        decreases fs@.len() - i,
    {
        let ghost rest = fs@.subrange(i as int, fs@.len() as int);
        assert(rest.drop_first() == fs@.subrange(i + 1, fs@.len() as int));
        if crate::model::str_eq(fs[i].0.as_str(), key) {
            let (_, v) = fs.remove(i);
            return Some(v);
        }
        i = i + 1;
    }
    None
}

/// Keeps the first node of each id, in order; gives the ids of the others.
pub fn keep_first_records(nodes: Vec<Node>) -> (r: (Vec<Node>, Vec<String>))
    ensures
        r.0@.map_values(|n: Node| n@) == kept_records(
            nodes@.map_values(|n: Node| n@),
            nodes@.len() as int,
        ),
        r.1@.map_values(|s: String| s@) == repeated_records(
            nodes@.map_values(|n: Node| n@),
            nodes@.len() as int,
        ),
{
    let ghost ns = nodes@.map_values(|n: Node| n@);
    let index = NodeIndex::build(&nodes);
    let mut first: Vec<bool> = Vec::new();
    let mut i: usize = 0;
    while i < nodes.len()
        invariant
            index.indexes(views(nodes@)),
            views(nodes@) == ns,
            i <= ns.len(),
            first@.len() == i,
            forall|k: int| 0 <= k < i ==> #[trigger] first@[k] == is_first_record(ns, k),
        decreases ns.len() - i,
    {
        let found = index.find(&nodes, nodes[i].id.as_str());
        proof {
            assert(ns[i as int].id == nodes@[i as int].id@);
        }
        let is_first = match found {
            Some(k) => k == i,
            None => false,
        };
        proof {
            assert(first_in(ns, ns[i as int].id, i as int) <==> is_first_record(
                ns,
                i as int,
            ));
        }
        first.push(is_first);
        i = i + 1;
    }
    let mut rest = reversed(nodes);
    let mut kept: Vec<Node> = Vec::new();
    let mut repeated: Vec<String> = Vec::new();
    let total = first.len();
    let mut k: usize = 0;
    while rest.len() > 0
        invariant
            total == ns.len(),
            k + rest@.len() == ns.len(),
            first@.len() == ns.len(),
            forall|m: int| 0 <= m < ns.len() ==> #[trigger] first@[m] == is_first_record(ns, m),
            forall|m: int| 0 <= m < rest@.len() ==> #[trigger] rest@[m]@ == ns[ns.len() - 1 - m],
            kept@.map_values(|n: Node| n@) == kept_records(ns, k as int),
            repeated@.map_values(|s: String| s@) == repeated_records(ns, k as int),
        decreases rest@.len(),
    {
        let node = rest.pop().unwrap();
        assert(node@ == ns[k as int]);
        if first[k] {
            kept.push(node);
            assert(kept@.map_values(|n: Node| n@) =~= kept_records(ns, k as int).push(ns[k as int]));
        } else {
            repeated.push(node.id);
            assert(repeated@.map_values(|s: String| s@) =~= repeated_records(ns, k as int).push(
                ns[k as int].id,
            ));
        }
        k = k + 1;
    }
    (kept, repeated)
}

/// Reads the graph that a graph document describes, with the ids of the
/// node records that it drops for repeating an earlier id.
pub fn decode_graph(j: Json) -> (r: Option<(Graph, Vec<String>)>)
    ensures
        match r {
            Some((g, rep)) => g.wf() && graph_model(j) == Some(g@) && rep@.map_values(|s: String| s@)
                == repeated_ids(j),
            None => graph_model(j) is None,
        },
{
    proof {
        reveal_strlit("nodes");
        reveal_strlit("edges");
    }
    let ghost j0 = j;
    match j {
        Json::Object(fs) => {
            let edges = match get_field(&fs, "edges") {
                None => Vec::new(),
                Some(Json::Array(items)) => match decode_edges(items) {
                    Some(es) => es,
                    None => return None,
                },
                Some(_) => return None,
            };
            assert(edges_part(fs@) == Some(edges@.map_values(|e: Edge| e@)));
            let mut fs = fs;
            let nodes = match take_field(&mut fs, "nodes") {
                Some(Json::Array(items)) => match decode_nodes(items) {
                    Some(ns) => ns,
                    None => return None,
                },
                _ => return None,
            };
            let (kept, repeated) = keep_first_records(nodes);
            Some((Graph::new(kept, edges), repeated))
        },
        _ => None,
    }
}

} // verus!
