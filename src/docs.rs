use vstd::prelude::*;
use crate::json::{Json, field, str_field, get_field, get_str};
use crate::model::{Graph, GraphView, has_node, str_eq};

verus! {

/// Package name, version, when the archive was generated, and every member
/// of the metadata document as read.
#[derive(Debug)]
pub struct PackageMetadata {
    pub name: String,
    pub version: String,
    pub generated_at: Option<String>,
    pub fields: Vec<(String, Json)>,
}

pub struct MetadataView {
    pub name: Seq<char>,
    pub version: Seq<char>,
    pub generated_at: Option<Seq<char>>,
}

pub open spec fn opt_text(s: Option<String>) -> Option<Seq<char>> {
    match s {
        Some(t) => Some(t@),
        None => None,
    }
}

impl View for PackageMetadata {
    type V = MetadataView;

    open spec fn view(&self) -> MetadataView {
        MetadataView {
            name: self.name@,
            version: self.version@,
            generated_at: opt_text(self.generated_at),
        }
    }
}

/// The metadata that a metadata document describes: an object with string
/// `name` and `version`; `generated_at` is kept where it is a string.
pub open spec fn metadata_model(j: Json) -> Option<MetadataView> {
    match j {
        Json::Object(fs) => {
            let name = str_field(fs@, "name"@);
            let version = str_field(fs@, "version"@);
            if name is Some && version is Some {
                Some(
                    MetadataView {
                        name: name->0,
                        version: version->0,
                        generated_at: str_field(fs@, "generated_at"@),
                    },
                )
            } else {
                None
            }
        },
        _ => None,
    }
}

/// Reads the metadata document.
pub fn decode_metadata(j: Json) -> (r: Option<PackageMetadata>)
    ensures
        match r {
            Some(m) => metadata_model(j) == Some(m@),
            None => metadata_model(j) is None,
        },
{
    proof {
        reveal_strlit("name");
        reveal_strlit("version");
        reveal_strlit("generated_at");
    }
    match j {
        Json::Object(fs) => {
            let name = match get_str(&fs, "name") {
                Some(s) => s,
                None => return None,
            };
            let version = match get_str(&fs, "version") {
                Some(s) => s,
                None => return None,
            };
            let generated_at = get_str(&fs, "generated_at");
            Some(PackageMetadata { name, version, generated_at, fields: fs })
        },
        _ => None,
    }
}

/// The documentation of one node.
#[derive(Debug)]
pub struct DocEntry {
    pub summary: Option<String>,
    pub description: Option<String>,
    pub examples: Vec<String>,
}

pub struct DocEntryView {
    pub summary: Option<Seq<char>>,
    pub description: Option<Seq<char>>,
    pub examples: Seq<Seq<char>>,
}

impl View for DocEntry {
    type V = DocEntryView;

    open spec fn view(&self) -> DocEntryView {
        DocEntryView {
            summary: opt_text(self.summary),
            description: opt_text(self.description),
            examples: self.examples@.map_values(|s: String| s@),
        }
    }
}

/// Documentation per node id, in the document's key order.
#[derive(Debug)]
pub struct Documentation {
    pub entries: Vec<(String, DocEntry)>,
}

pub open spec fn all_texts(items: Seq<Json>) -> bool {
    forall|k: int| 0 <= k < items.len() ==> (#[trigger] items[k]) is Str
}

pub open spec fn text_of(j: Json) -> Seq<char> {
    match j {
        Json::Str(s) => s@,
        _ => Seq::empty(),
    }
}

/// The entry that a member of the documentation document describes: an
/// object whose `summary` and `description` are kept where they are strings,
/// and whose `examples`, where present, is an array of strings.
pub open spec fn doc_entry_model(j: Json) -> Option<DocEntryView> {
    match j {
        Json::Object(fs) => match field(fs@, "examples"@) {
            None => Some(
                DocEntryView {
                    summary: str_field(fs@, "summary"@),
                    description: str_field(fs@, "description"@),
                    examples: Seq::empty(),
                },
            ),
            Some(Json::Array(items)) => if all_texts(items@) {
                Some(
                    DocEntryView {
                        summary: str_field(fs@, "summary"@),
                        description: str_field(fs@, "description"@),
                        examples: items@.map_values(|x: Json| text_of(x)),
                    },
                )
            } else {
                None
            },
            _ => None,
        },
        _ => None,
    }
}

pub open spec fn all_doc_entries(fs: Seq<(String, Json)>) -> bool {
    forall|k: int| 0 <= k < fs.len() ==> (#[trigger] doc_entry_model(fs[k].1)) is Some
}

/// The documentation that a documentation document describes: an object
/// from node id to entry. Its keys, in order.
pub open spec fn docs_keys(j: Json) -> Option<Seq<Seq<char>>> {
    match j {
        Json::Object(fs) => if all_doc_entries(fs@) {
            Some(fs@.map_values(|m: (String, Json)| m.0@))
        } else {
            None
        },
        _ => None,
    }
}

/// The entries of the documentation document, where it is well formed.
pub open spec fn docs_entries(j: Json) -> Seq<DocEntryView> {
    match j {
        Json::Object(fs) => fs@.map_values(|m: (String, Json)| doc_entry_model(m.1)->0),
        _ => Seq::empty(),
    }
}

impl Documentation {
    pub open spec fn keys(&self) -> Seq<Seq<char>> {
        self.entries@.map_values(|m: (String, DocEntry)| m.0@)
    }

    pub open spec fn values(&self) -> Seq<DocEntryView> {
        self.entries@.map_values(|m: (String, DocEntry)| m.1@)
    }
}

fn decode_texts(items: &Vec<Json>) -> (r: Option<Vec<String>>)
    ensures
        r is Some <==> all_texts(items@),
        r matches Some(v) ==> v@.map_values(|s: String| s@) == items@.map_values(
            |x: Json| text_of(x),
        ),
{
    let mut out: Vec<String> = Vec::new();
    let mut i: usize = 0;
    while i < items.len()
        invariant
            i <= items@.len(),
            out@.len() == i,
            forall|k: int| 0 <= k < i ==> (#[trigger] items@[k]) is Str,
            forall|k: int| 0 <= k < i ==> text_of(items@[k]) == (#[trigger] out@[k])@,
        decreases items@.len() - i,
    {
        match &items[i] {
            Json::Str(s) => {
                let c = s.clone();
                assert(text_of(items@[i as int]) == c@);
                out.push(c);

            },
            _ => {
                assert(!(items@[i as int] is Str));
                return None;
            },
        }
        i = i + 1;
    }
    assert(out@.map_values(|s: String| s@) =~= items@.map_values(|x: Json| text_of(x)));
    assert(all_texts(items@)) by {
        assert forall|k: int| 0 <= k < items@.len() implies (#[trigger] items@[k]) is Str by {
            assert(text_of(items@[k]) == out@[k]@);
        }
    }
    Some(out)
}

/// Reads one documentation entry.
pub fn decode_doc_entry(j: &Json) -> (r: Option<DocEntry>)
    ensures
        match r {
            Some(e) => doc_entry_model(*j) == Some(e@),
            None => doc_entry_model(*j) is None,
        },
{
    proof {
        reveal_strlit("summary");
        reveal_strlit("description");
        reveal_strlit("examples");
    }
    match j {
        Json::Object(fs) => {
            let examples = match get_field(fs, "examples") {
                None => Vec::new(),
                Some(Json::Array(items)) => match decode_texts(items) {
                    Some(v) => v,
                    None => return None,
                },
                Some(_) => return None,
            };
            proof {
                if field(fs@, "examples"@) is None {
                    assert(examples@.map_values(|s: String| s@) =~= Seq::<Seq<char>>::empty());
                }
            }
            Some(
                DocEntry {
                    summary: get_str(fs, "summary"),
                    description: get_str(fs, "description"),
                    examples,
                },
            )
        },
        _ => None,
    }
}

/// Reads the documentation document.
pub fn decode_documentation(j: &Json) -> (r: Option<Documentation>)
    ensures
        r is Some <==> docs_keys(*j) is Some,
        r matches Some(d) ==> d.keys() == docs_keys(*j)->0 && d.values() == docs_entries(*j),
{
    match j {
        Json::Object(fs) => {
            let mut out: Vec<(String, DocEntry)> = Vec::new();
            let mut i: usize = 0;
            while i < fs.len()
                invariant
                    *j == Json::Object(*fs),
                    i <= fs@.len(),
                    out@.len() == i,
                    forall|k: int|
                        0 <= k < i ==> (#[trigger] out@[k]).0@ == fs@[k].0@ && doc_entry_model(
                            fs@[k].1,
                        ) == Some(out@[k].1@),
                decreases fs@.len() - i,
            {
                match decode_doc_entry(&fs[i].1) {
                    Some(e) => out.push((fs[i].0.clone(), e)),
                    None => {
                        assert(doc_entry_model(fs@[i as int].1) is None);
                        assert(!all_doc_entries(fs@));
                        return None;
                    },
                }
                i = i + 1;
            }
            let d = Documentation { entries: out };
            assert(d.keys() =~= fs@.map_values(|m: (String, Json)| m.0@));
            assert(d.values() =~= fs@.map_values(
                |m: (String, Json)| doc_entry_model(m.1)->0,
            ));
            assert(all_doc_entries(fs@)) by {
                assert forall|k: int| 0 <= k < fs@.len() implies (#[trigger] doc_entry_model(
                    fs@[k].1,
                )) is Some by {
                    assert(doc_entry_model(fs@[k].1) == Some(out@[k].1@));
                }
            }
            Some(d)
        },
        _ => None,
    }
}

/// What the documentation holds for a node.
#[derive(Debug)]
pub enum DocLookup {
    /// No node has the id.
    NodeNotFound,
    /// The node exists but the archive has no documentation for it.
    Unavailable,
    /// The position of the node's entry in the documentation.
    Found(usize),
}

/// The position of the first entry for `id` in a key sequence.
pub open spec fn first_key(keys: Seq<Seq<char>>, id: Seq<char>, i: int) -> bool {
    0 <= i < keys.len() && keys[i] == id && forall|j: int| 0 <= j < i ==> keys[j] != id
}

/// Where no node has the id, `NodeNotFound`; where there is no
/// documentation or it has no entry for the id, `Unavailable`.
pub open spec fn lookup_spec(g: GraphView, keys: Option<Seq<Seq<char>>>, id: Seq<char>, r: DocLookup) -> bool {
    if !has_node(g, id) {
        r is NodeNotFound
    } else {
        match keys {
            None => r is Unavailable,
            Some(ks) => match r {
                DocLookup::Found(i) => first_key(ks, id, i as int),
                DocLookup::Unavailable => !ks.contains(id),
                DocLookup::NodeNotFound => false,
            },
        }
    }
}

pub open spec fn docs_keys_of(d: Option<Documentation>) -> Option<Seq<Seq<char>>> {
    match d {
        Some(x) => Some(x.keys()),
        None => None,
    }
}

/// The documentation of the node with this id.
pub fn lookup_docs(graph: &Graph, docs: &Option<Documentation>, id: &str) -> (r: DocLookup)
    requires
        graph.wf(),
    ensures
        lookup_spec(graph@, docs_keys_of(*docs), id@, r),
{
    if graph.resolve(id).is_err() {
        return DocLookup::NodeNotFound;
    }
    match docs {
        None => DocLookup::Unavailable,
        Some(d) => {
            let mut i: usize = 0;
            while i < d.entries.len()
                invariant
                    has_node(graph@, id@),
                    *docs == Some(*d),
                    i <= d.entries@.len(),
                    forall|j: int| 0 <= j < i ==> d.keys()[j] != id@,
                decreases d.entries@.len() - i,
            {
                if str_eq(d.entries[i].0.as_str(), id) {
                    assert(d.keys()[i as int] == id@);
                    return DocLookup::Found(i);
                }
                i = i + 1;
            }
            assert(!d.keys().contains(id@));
            DocLookup::Unavailable
        },
    }
}

/// For a node that exists, missing documentation is reported as
/// unavailable, never as a missing node.
pub proof fn lemma_missing_docs_unavailable(g: GraphView, id: Seq<char>, r: DocLookup)
    requires
        has_node(g, id),
        lookup_spec(g, None, id, r),
    ensures
        r is Unavailable,
{
}

} // verus!
