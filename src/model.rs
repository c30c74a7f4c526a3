use vstd::prelude::*;
use crate::json::Json;
use crate::index::{NodeIndex, views};

verus! {

/// What a node of the graph stands for. A kind that this library does not
/// know is kept under `Other` with its text.
#[derive(Clone, Debug)]
pub enum NodeKind {
    Function,
    Type,
    Module,
    File,
    Cluster,
    Other(String),
}

pub enum KindView {
    Function,
    Type,
    Module,
    File,
    Cluster,
    Other(Seq<char>),
}

impl View for NodeKind {
    type V = KindView;

    open spec fn view(&self) -> KindView {
        match self {
            NodeKind::Function => KindView::Function,
            NodeKind::Type => KindView::Type,
            NodeKind::Module => KindView::Module,
            NodeKind::File => KindView::File,
            NodeKind::Cluster => KindView::Cluster,
            NodeKind::Other(s) => KindView::Other(s@),
        }
    }
}

/// The kind that a text names: the five known words, else `Other`.
pub open spec fn kind_of_text(s: Seq<char>) -> KindView {
    if s == "function"@ {
        KindView::Function
    } else if s == "type"@ {
        KindView::Type
    } else if s == "module"@ {
        KindView::Module
    } else if s == "file"@ {
        KindView::File
    } else if s == "cluster"@ {
        KindView::Cluster
    } else {
        KindView::Other(s)
    }
}

/// Whether two texts hold the same characters.
pub fn str_eq(a: &str, b: &str) -> (r: bool)
    ensures
        r == (a@ == b@),
{
    let n = a.unicode_len();
    if n != b.unicode_len() {
        return false;
    }
    let mut i: usize = 0;
    while i < n
        invariant
            n == a@.len(),
            n == b@.len(),
            i <= n,
            a@.subrange(0, i as int) == b@.subrange(0, i as int),
        decreases n - i,
    {
        if a.get_char(i) != b.get_char(i) {
            return false;
        }
        assert(a@.subrange(0, i + 1) == a@.subrange(0, i as int).push(a@[i as int]));
        assert(b@.subrange(0, i + 1) == b@.subrange(0, i as int).push(b@[i as int]));
        i = i + 1;
    }
    assert(a@ == a@.subrange(0, n as int));
    assert(b@ == b@.subrange(0, n as int));
    true
}

impl NodeKind {
    /// The kind that a text names; an unknown word is kept as `Other`.
    pub fn from_text(s: &str) -> (r: NodeKind)
        ensures
            r@ == kind_of_text(s@),
    {
        proof {
            reveal_strlit("function");
            reveal_strlit("type");
            reveal_strlit("module");
            reveal_strlit("file");
            reveal_strlit("cluster");
        }
        if str_eq(s, "function") {
            NodeKind::Function
        } else if str_eq(s, "type") {
            NodeKind::Type
        } else if str_eq(s, "module") {
            NodeKind::Module
        } else if str_eq(s, "file") {
            NodeKind::File
        } else if str_eq(s, "cluster") {
            NodeKind::Cluster
        } else {
            NodeKind::Other(s.to_owned())
        }
    }

    /// Whether two kinds are the same.
    pub fn same_as(&self, other: &NodeKind) -> (r: bool)
        ensures
            r == (self@ == other@),
    {
        match (self, other) {
            (NodeKind::Function, NodeKind::Function) => true,
            (NodeKind::Type, NodeKind::Type) => true,
            (NodeKind::Module, NodeKind::Module) => true,
            (NodeKind::File, NodeKind::File) => true,
            (NodeKind::Cluster, NodeKind::Cluster) => true,
            (NodeKind::Other(a), NodeKind::Other(b)) => str_eq(a.as_str(), b.as_str()),
            _ => false,
        }
    }
}

/// One entity of the knowledge graph. `attributes` holds the node's other
/// members, kept as they were read and not used by any query.
#[derive(Debug)]
pub struct Node {
    pub id: String,
    pub kind: NodeKind,
    pub name: String,
    pub public: bool,
    pub attributes: Vec<(String, Json)>,
}

pub struct NodeView {
    pub id: Seq<char>,
    pub kind: KindView,
    pub name: Seq<char>,
    pub public: bool,
}

impl View for Node {
    type V = NodeView;

    open spec fn view(&self) -> NodeView {
        NodeView { id: self.id@, kind: self.kind@, name: self.name@, public: self.public }
    }
}

/// A directed relationship between two node ids. Either end may name no node.
#[derive(Clone, Debug)]
pub struct Edge {
    pub source: String,
    pub target: String,
    pub kind: String,
}

pub struct EdgeView {
    pub source: Seq<char>,
    pub target: Seq<char>,
    pub kind: Seq<char>,
}

impl View for Edge {
    type V = EdgeView;

    open spec fn view(&self) -> EdgeView {
        EdgeView { source: self.source@, target: self.target@, kind: self.kind@ }
    }
}

/// The nodes and edges of one archive, in the order the archive lists them,
/// with a table from node id to position.
#[derive(Debug)]
pub struct Graph {
    pub nodes: Vec<Node>,
    pub edges: Vec<Edge>,
    pub index: NodeIndex,
}

pub struct GraphView {
    pub nodes: Seq<NodeView>,
    pub edges: Seq<EdgeView>,
}

impl View for Graph {
    type V = GraphView;

    open spec fn view(&self) -> GraphView {
        GraphView {
            nodes: views(self.nodes@),
            edges: self.edges@.map_values(|e: Edge| e@),
        }
    }
}

impl Graph {
    /// Whether the id table was built from these nodes.
    pub open spec fn wf(&self) -> bool {
        self.index.indexes(self@.nodes)
    }

    /// A graph of these nodes and edges, with its id table built.
    pub fn new(nodes: Vec<Node>, edges: Vec<Edge>) -> (r: Graph)
        ensures
            r.wf(),
            r.nodes@ == nodes@,
            r.edges@ == edges@,
    {
        let index = NodeIndex::build(&nodes);
        Graph { nodes, edges, index }
    }
}

/// Whether some node of the graph has this id.
pub open spec fn has_node(g: GraphView, id: Seq<char>) -> bool {
    exists|i: int| 0 <= i < g.nodes.len() && g.nodes[i].id == id
}

/// The position of the first node with this id; meaningful where `has_node`.
pub open spec fn first_with_id(g: GraphView, id: Seq<char>, i: int) -> bool {
    0 <= i < g.nodes.len() && g.nodes[i].id == id && forall|j: int|
        0 <= j < i ==> g.nodes[j].id != id
}

} // verus!
