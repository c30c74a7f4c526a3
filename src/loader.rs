use vstd::prelude::*;
use crate::archive::{EntryModel, entry_model, read_archive, zip_of};
use crate::decode::{decode_graph, graph_model, repeated_ids};
use crate::docs::{
    DocLookup, Documentation, PackageMetadata, MetadataView, decode_documentation,
    decode_metadata, docs_entries, docs_keys, docs_keys_of, lookup_spec, metadata_model,
};
use crate::extract::ArchiveEntry;
use crate::json::{Json, json_of, parse_json};
use crate::model::{Graph, GraphView, has_node, str_eq};

verus! {

/// Everything that loading an archive yields.
#[derive(Debug)]
pub struct Docpack {
    /// The graph, with one node per id: the first record of each id.
    pub graph: Graph,
    /// The ids of the node records dropped for repeating an earlier id, in
    /// the order of the graph document.
    pub repeated_ids: Vec<String>,
    pub metadata: PackageMetadata,
    /// The documentation, where the archive holds a well-formed one.
    pub documentation: Option<Documentation>,
    /// Whether the archive holds a documentation entry that could not be
    /// read; the load goes on without it.
    pub documentation_invalid: bool,
}

/// Why an archive could not be loaded.
#[derive(Debug, Clone, Copy, PartialEq, Eq, Structural)]
pub enum LoadError {
    /// The bytes hold no archive that can be read.
    ArchiveOpen,
    /// The archive has no graph entry.
    GraphMissing,
    /// The graph entry could not be read as a graph.
    GraphParse,
    /// The archive has no metadata entry.
    MetadataMissing,
    /// The metadata entry could not be read as metadata.
    MetadataParse,
}

/// The bytes of the first entry named `name` (`Some(None)` where they could
/// not be read), or `None` where no entry has that name.
pub open spec fn named_data(es: Seq<EntryModel>, name: Seq<char>) -> Option<Option<Seq<u8>>>
    decreases es.len(),
{
    if es.len() == 0 {
        None
    } else {
        match es[0] {
            Some((path, _, data)) if path == name => Some(data),
            _ => named_data(es.drop_first(), name),
        }
    }
}

/// The JSON document held by the entry named `name`, where it is one.
pub open spec fn entry_json(es: Seq<EntryModel>, name: Seq<char>) -> Option<Json> {
    match named_data(es, name) {
        Some(Some(d)) => json_of(d),
        _ => None,
    }
}

pub open spec fn loaded_graph(es: Seq<EntryModel>) -> Option<GraphView> {
    match entry_json(es, "graph.json"@) {
        Some(j) => graph_model(j),
        None => None,
    }
}

pub open spec fn loaded_metadata(es: Seq<EntryModel>) -> Option<MetadataView> {
    match entry_json(es, "metadata.json"@) {
        Some(j) => metadata_model(j),
        None => None,
    }
}

pub open spec fn loaded_docs_keys(es: Seq<EntryModel>) -> Option<Seq<Seq<char>>> {
    match entry_json(es, "documentation.json"@) {
        Some(j) => docs_keys(j),
        None => None,
    }
}

/// What loading gives for an archive with these entries: the first failure
/// among the required entries, in the order graph then metadata; else the
/// graph, the metadata and the documentation where it is well formed.
pub open spec fn load_outcome(es: Seq<EntryModel>, r: Result<Docpack, LoadError>) -> bool {
    if named_data(es, "graph.json"@) is None {
        r == Err::<Docpack, LoadError>(LoadError::GraphMissing)
    } else if loaded_graph(es) is None {
        r == Err::<Docpack, LoadError>(LoadError::GraphParse)
    } else if named_data(es, "metadata.json"@) is None {
        r == Err::<Docpack, LoadError>(LoadError::MetadataMissing)
    } else if loaded_metadata(es) is None {
        r == Err::<Docpack, LoadError>(LoadError::MetadataParse)
    } else {
        match r {
            Ok(p) => {
                &&& p.graph.wf()
                &&& Some(p.graph@) == loaded_graph(es)
                &&& p.repeated_ids@.map_values(|s: String| s@) == repeated_ids(
                    entry_json(es, "graph.json"@)->0,
                )
                &&& Some(p.metadata@) == loaded_metadata(es)
                &&& docs_keys_of(p.documentation) == loaded_docs_keys(es)
                &&& (p.documentation matches Some(d) ==> d.values() == docs_entries(
                    entry_json(es, "documentation.json"@)->0,
                ))
                &&& p.documentation_invalid == (named_data(es, "documentation.json"@) is Some
                    && loaded_docs_keys(es) is None)
            },
            Err(_) => false,
        }
    }
}

/// The position of the first entry named `name`.
fn find_entry(entries: &Vec<Option<ArchiveEntry>>, name: &str) -> (r: Option<usize>)
    ensures
        match r {
            Some(i) => i < entries@.len() && entries@[i as int] is Some && named_data(
                entries@.map_values(|e: Option<ArchiveEntry>| entry_model(e)),
                name@,
            ) == Some(data_of(entries@[i as int])),
            None => named_data(
                entries@.map_values(|e: Option<ArchiveEntry>| entry_model(e)),
                name@,
            ) is None,
        },
{
    let ghost ms = entries@.map_values(|e: Option<ArchiveEntry>| entry_model(e));
    let mut i: usize = 0;
    assert(ms.subrange(0, ms.len() as int) == ms);
    while i < entries.len()
        invariant
            ms == entries@.map_values(|e: Option<ArchiveEntry>| entry_model(e)),
            i <= entries@.len(),
            named_data(ms, name@) == named_data(ms.subrange(i as int, ms.len() as int), name@),
        decreases entries@.len() - i,
    {
        let ghost rest = ms.subrange(i as int, ms.len() as int);
        assert(rest.drop_first() == ms.subrange(i + 1, ms.len() as int));
        match &entries[i] {
            Some(e) => {
                if str_eq(e.path.as_str(), name) {
                    return Some(i);
                }
            },
            None => {},
        }
        i = i + 1;
    }
    None
}

pub open spec fn data_of(e: Option<ArchiveEntry>) -> Option<Seq<u8>> {
    match e {
        Some(x) => crate::archive::data_view(x.data),
        None => None,
    }
}

/// The JSON document in entry `i`, where its bytes were read and hold one.
fn entry_document(entries: &Vec<Option<ArchiveEntry>>, i: usize) -> (r: Option<Json>)
    requires
        i < entries@.len(),
    ensures
        r == match data_of(entries@[i as int]) {
            Some(d) => json_of(d),
            None => None,
        },
{
    match &entries[i] {
        Some(e) => match &e.data {
            Some(d) => parse_json(d.as_slice()),
            None => None,
        },
        None => None,
    }
}

/// Loads an archive from its bytes: the graph and the metadata are required,
/// the documentation is kept only where it is present and well formed.
pub fn load_docpack(bytes: Vec<u8>) -> (r: Result<Docpack, LoadError>)
    ensures
        zip_of(bytes@) is None ==> r == Err::<Docpack, LoadError>(LoadError::ArchiveOpen),
        zip_of(bytes@) matches Some(es) ==> load_outcome(es, r),
{
    proof {
        reveal_strlit("graph.json");
        reveal_strlit("metadata.json");
        reveal_strlit("documentation.json");
    }
    let ghost whole = bytes@;
    let entries = match read_archive(bytes) {
        Some(v) => v,
        None => return Err(LoadError::ArchiveOpen),
    };
    let ghost es = zip_of(whole)->0;
    assert(entries@.map_values(|e: Option<ArchiveEntry>| entry_model(e)) == es);
    let gi = match find_entry(&entries, "graph.json") {
        Some(i) => i,
        None => return Err(LoadError::GraphMissing),
    };
    let (graph, repeated_ids) = match entry_document(&entries, gi) {
        Some(j) => match decode_graph(j) {
            Some(g) => g,
            None => return Err(LoadError::GraphParse),
        },
        None => return Err(LoadError::GraphParse),
    };
    let mi = match find_entry(&entries, "metadata.json") {
        Some(i) => i,
        None => return Err(LoadError::MetadataMissing),
    };
    let metadata = match entry_document(&entries, mi) {
        Some(j) => match decode_metadata(j) {
            Some(m) => m,
            None => return Err(LoadError::MetadataParse),
        },
        None => return Err(LoadError::MetadataParse),
    };
    let (documentation, documentation_invalid) = match find_entry(&entries, "documentation.json") {
        None => (None, false),
        Some(di) => match entry_document(&entries, di) {
            Some(j) => match decode_documentation(&j) {
                Some(d) => (Some(d), false),
                None => (None, true),
            },
            None => (None, true),
        },
    };
    Ok(Docpack { graph, repeated_ids, metadata, documentation, documentation_invalid })
}

/// An archive without a documentation entry loads with no documentation,
/// and asking for the documentation of a node that exists then reports it
/// unavailable rather than failing.
pub proof fn lemma_missing_documentation(es: Seq<EntryModel>, p: Docpack, id: Seq<char>, r: DocLookup)
    requires
        named_data(es, "documentation.json"@) is None,
        load_outcome(es, Ok(p)),
        has_node(p.graph@, id),
        lookup_spec(p.graph@, docs_keys_of(p.documentation), id, r),
    ensures
        p.documentation is None,
        !p.documentation_invalid,
        r is Unavailable,
{
}

/// An archive without a graph entry never loads.
pub proof fn lemma_missing_graph(es: Seq<EntryModel>, r: Result<Docpack, LoadError>)
    requires
        named_data(es, "graph.json"@) is None,
        load_outcome(es, r),
    ensures
        r == Err::<Docpack, LoadError>(LoadError::GraphMissing),
{
}

} // verus!
