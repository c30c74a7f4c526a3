use std::io::Write;

use localdoc::docs::{lookup_docs, DocLookup};
use localdoc::extract::{is_reserved_path, plan_extraction, safe_entry_path, ExtractStep};
use localdoc::generate::{
    builder_candidates, check_generate_input, select_builder, BuilderPick, GenerateError,
};
use localdoc::index::{hash_id, NodeIndex};
use localdoc::loader::{load_docpack, Docpack, LoadError};
use localdoc::archive::read_archive;
use localdoc::model::{Graph, NodeKind};
use localdoc::query::{QueryError, DEFAULT_LIST_LIMIT};
use localdoc::text::{fold_text, text_matches};

const GRAPH: &str = r#"{
  "nodes": [
    {"id": "f1", "kind": "function", "name": "parse_input", "public": true, "file": "a.rs"},
    {"id": "t1", "kind": "type", "name": "ParseInput", "public": true},
    {"id": "m1", "kind": "module", "name": "parser"},
    {"id": "x1", "kind": "file", "name": "main.rs", "public": false},
    {"id": "c1", "kind": "cluster", "name": "core"},
    {"id": "w1", "kind": "widget", "name": "gadget", "public": true}
  ],
  "edges": [
    {"source": "m1", "target": "f1", "kind": "defines"},
    {"source": "f1", "target": "t1", "kind": "calls"},
    {"source": "f1", "target": "ghost", "kind": "calls"},
    {"source": "nowhere", "target": "t1"}
  ]
}"#;

const METADATA: &str = r#"{"name": "demo", "version": "1.2.3", "generated_at": "2024-01-01T00:00:00Z", "builder": "x"}"#;

const DOCS: &str = r#"{
  "f1": {"summary": "Parses input.", "description": "Long text.", "examples": ["parse_input(x)"]},
  "t1": {"summary": "The input type."}
}"#;

fn zip_bytes(entries: &[(&str, &str)]) -> Vec<u8> {
    let mut w = zip::ZipWriter::new(std::io::Cursor::new(Vec::new()));
    for (name, body) in entries {
        w.start_file(*name, zip::write::SimpleFileOptions::default()).unwrap();
        w.write_all(body.as_bytes()).unwrap();
    }
    w.finish().unwrap().into_inner()
}

fn full_pack() -> Docpack {
    let bytes = zip_bytes(&[
        ("graph.json", GRAPH),
        ("metadata.json", METADATA),
        ("documentation.json", DOCS),
        ("src/lib.rs", "pub fn a() {}"),
    ]);
    load_docpack(bytes).unwrap()
}

fn graph() -> Graph {
    full_pack().graph
}

fn names(g: &Graph, idx: &[usize]) -> Vec<String> {
    idx.iter().map(|&i| g.nodes[i].name.clone()).collect()
}

#[test]
fn loads_graph_metadata_and_docs() {
    let p = full_pack();
    assert_eq!(p.graph.nodes.len(), 6);
    assert_eq!(p.graph.edges.len(), 4);
    assert_eq!(p.metadata.name, "demo");
    assert_eq!(p.metadata.version, "1.2.3");
    assert_eq!(p.metadata.generated_at.as_deref(), Some("2024-01-01T00:00:00Z"));
    assert!(p.documentation.is_some());
    assert!(!p.documentation_invalid);
    assert_eq!(p.graph.edges[3].kind, "");
    assert_eq!(p.graph.nodes[0].attributes.len(), 5);
}

#[test]
fn unknown_kind_is_kept_as_other() {
    let g = graph();
    match &g.nodes[5].kind {
        NodeKind::Other(s) => assert_eq!(s, "widget"),
        k => panic!("unexpected kind {:?}", k),
    }
    assert!(matches!(NodeKind::from_text("cluster"), NodeKind::Cluster));
    assert!(matches!(NodeKind::from_text("Function"), NodeKind::Other(_)));
}

#[test]
fn resolve_finds_exactly_the_loaded_ids() {
    let g = graph();
    assert_eq!(g.resolve("t1").unwrap(), 1);
    assert_eq!(g.resolve("w1").unwrap(), 5);
    match g.resolve("T1") {
        Err(QueryError::NodeNotFound(id)) => assert_eq!(id, "T1"),
        other => panic!("unexpected {:?}", other),
    }
    assert!(g.resolve("").is_err());
    assert!(g.resolve("f").is_err());
}

#[test]
fn resolve_keeps_first_of_duplicate_ids() {
    let text = r#"{"nodes": [{"id": "a", "kind": "type", "name": "one"}, {"id": "a", "kind": "type", "name": "two"}]}"#;
    let bytes = zip_bytes(&[("graph.json", text), ("metadata.json", METADATA)]);
    let p = load_docpack(bytes).unwrap();
    let g = &p.graph;
    assert_eq!(g.nodes.len(), 1);
    assert_eq!(g.nodes[0].name, "one");
    assert_eq!(g.resolve("a").unwrap(), 0);
    assert_eq!(g.edges.len(), 0);
    assert_eq!(p.repeated_ids, vec!["a".to_string()]);
    assert_eq!(g.search("", true), vec![0]);
    assert_eq!(g.statistics().types, 1);
}

#[test]
fn no_duplicates_in_sample_graph() {
    assert!(full_pack().repeated_ids.is_empty());
}

#[test]
fn relations_carry_resolved_neighbors() {
    let g = graph();
    let out = g.outgoing("f1");
    assert_eq!(out.iter().map(|r| r.edge).collect::<Vec<_>>(), vec![1, 2]);
    assert_eq!(out[0].neighbor, Some(1));
    assert_eq!(out[1].neighbor, None);
    let inc = g.incoming("t1");
    assert_eq!(inc.iter().map(|r| r.edge).collect::<Vec<_>>(), vec![1, 3]);
    assert_eq!(inc[0].neighbor, Some(0));
    assert_eq!(inc[1].neighbor, None);
}

#[test]
fn unfiltered_list_is_prefix_of_node_order() {
    let g = graph();
    assert_eq!(g.list(None, false, 3).unwrap(), vec![0, 1, 2]);
    assert_eq!(g.list(None, false, 1).unwrap(), vec![0]);
    assert_eq!(g.list(None, false, DEFAULT_LIST_LIMIT).unwrap(), vec![0, 1, 2, 3, 4, 5]);
    assert_eq!(DEFAULT_LIST_LIMIT, 50);
}

#[test]
fn list_filters_compose() {
    let g = graph();
    assert_eq!(g.list(None, true, 50).unwrap(), vec![0, 1, 5]);
    assert_eq!(g.list(Some(NodeKind::Type), false, 50).unwrap(), vec![1]);
    assert_eq!(g.list(Some(NodeKind::Module), true, 50).unwrap(), Vec::<usize>::new());
    assert_eq!(g.list(Some(NodeKind::Other("widget".to_string())), true, 50).unwrap(), vec![5]);
    assert_eq!(g.list(None, true, 2).unwrap(), vec![0, 1]);
}

#[test]
fn list_rejects_zero_limit() {
    let g = graph();
    assert!(matches!(g.list(None, false, 0), Err(QueryError::InvalidArgument)));
}

#[test]
fn search_case_policy() {
    let g = graph();
    let insensitive = g.search("Parse", false);
    let sensitive = g.search("Parse", true);
    assert_eq!(names(&g, &insensitive), vec!["parse_input", "ParseInput", "parser"]);
    assert_eq!(names(&g, &sensitive), vec!["ParseInput"]);
    for i in &sensitive {
        assert!(insensitive.contains(i));
    }
}

#[test]
fn empty_query_matches_every_node() {
    let g = graph();
    assert_eq!(g.search("", true), vec![0, 1, 2, 3, 4, 5]);
    assert_eq!(g.search("", false), vec![0, 1, 2, 3, 4, 5]);
    assert_eq!(g.search("no such name", false), Vec::<usize>::new());
}

#[test]
fn text_matching_and_folding() {
    assert!(text_matches("ParseInput", "seIn", true));
    assert!(!text_matches("ParseInput", "sein", true));
    assert!(text_matches("ParseInput", "SEIN", false));
    assert!(!text_matches("ab", "abc", false));
    assert!(text_matches("", "", true));
    assert!(text_matches("Émile", "é", false));
    assert!(!text_matches("Émile", "é", true));
    assert_eq!(fold_text("AbÉ"), vec!['a', 'b', 'é']);
    assert_eq!(fold_text("İ"), vec!['i', '\u{307}']);
    assert_eq!(fold_text(""), Vec::<char>::new());
}

#[test]
fn relationships_by_either_end() {
    let g = graph();
    assert_eq!(g.edges_from("f1"), vec![1, 2]);
    assert_eq!(g.edges_to("f1"), vec![0]);
    assert_eq!(g.edges_to("t1"), vec![1, 3]);
    assert_eq!(g.edges_from("zzz"), Vec::<usize>::new());
}

#[test]
fn statistics_counts() {
    let g = graph();
    let s = g.statistics();
    assert_eq!(s.total_nodes, 6);
    assert_eq!(s.functions, 1);
    assert_eq!(s.types, 1);
    assert_eq!(s.modules, 1);
    assert_eq!(s.files, 1);
    assert_eq!(s.clusters, 1);
    assert_eq!(s.other_kinds, 1);
    assert_eq!(s.public_nodes, 3);
    assert_eq!(s.private_nodes, 3);
    assert_eq!(s.total_edges, 4);
    assert_eq!(s.dangling_edges, 2);
    let sum = s.functions + s.types + s.modules + s.files + s.clusters + s.other_kinds;
    assert_eq!(sum, s.total_nodes);
    assert!(s.dangling_edges <= s.total_edges);
}

#[test]
fn statistics_of_empty_graph() {
    let g = Graph::new(Vec::new(), Vec::new());
    let s = g.statistics();
    assert_eq!(s.total_nodes, 0);
    assert_eq!(s.dangling_edges, 0);
}

#[test]
fn missing_documentation_reports_unavailable() {
    let bytes = zip_bytes(&[("graph.json", GRAPH), ("metadata.json", METADATA)]);
    let p = load_docpack(bytes).unwrap();
    assert!(p.documentation.is_none());
    assert!(!p.documentation_invalid);
    assert!(matches!(lookup_docs(&p.graph, &p.documentation, "f1"), DocLookup::Unavailable));
    assert!(matches!(lookup_docs(&p.graph, &p.documentation, "nope"), DocLookup::NodeNotFound));
}

#[test]
fn corrupt_documentation_is_dropped() {
    let bytes = zip_bytes(&[
        ("graph.json", GRAPH),
        ("metadata.json", METADATA),
        ("documentation.json", "{not json"),
    ]);
    let p = load_docpack(bytes).unwrap();
    assert!(p.documentation.is_none());
    assert!(p.documentation_invalid);
}

#[test]
fn documentation_lookup() {
    let p = full_pack();
    match lookup_docs(&p.graph, &p.documentation, "f1") {
        DocLookup::Found(i) => {
            let d = p.documentation.as_ref().unwrap();
            let (key, entry) = &d.entries[i];
            assert_eq!(key, "f1");
            assert_eq!(entry.summary.as_deref(), Some("Parses input."));
            assert_eq!(entry.description.as_deref(), Some("Long text."));
            assert_eq!(entry.examples, vec!["parse_input(x)".to_string()]);
        }
        other => panic!("unexpected {:?}", other),
    }
    assert!(matches!(lookup_docs(&p.graph, &p.documentation, "m1"), DocLookup::Unavailable));
}

#[test]
fn missing_graph_fails_load() {
    let bytes = zip_bytes(&[("metadata.json", METADATA), ("documentation.json", DOCS)]);
    assert_eq!(load_docpack(bytes).unwrap_err(), LoadError::GraphMissing);
}

#[test]
fn load_errors() {
    assert_eq!(load_docpack(b"not an archive".to_vec()).unwrap_err(), LoadError::ArchiveOpen);
    let bad_graph = zip_bytes(&[("graph.json", "{\"nodes\": 3}"), ("metadata.json", METADATA)]);
    assert_eq!(load_docpack(bad_graph).unwrap_err(), LoadError::GraphParse);
    let empty_id = zip_bytes(&[
        ("graph.json", r#"{"nodes": [{"id": "", "kind": "type", "name": "x"}]}"#),
        ("metadata.json", METADATA),
    ]);
    assert_eq!(load_docpack(empty_id).unwrap_err(), LoadError::GraphParse);
    let no_meta = zip_bytes(&[("graph.json", GRAPH)]);
    assert_eq!(load_docpack(no_meta).unwrap_err(), LoadError::MetadataMissing);
    let bad_meta = zip_bytes(&[("graph.json", GRAPH), ("metadata.json", "{\"name\": 1}")]);
    assert_eq!(load_docpack(bad_meta).unwrap_err(), LoadError::MetadataParse);
}

#[test]
fn extraction_refuses_escaping_entry() {
    let bytes = zip_bytes(&[
        ("graph.json", GRAPH),
        ("metadata.json", METADATA),
        ("../../evil", "x"),
        ("docs/readme.md", "hello"),
        ("/etc/passwd", "y"),
        ("a/../b.txt", "z"),
    ]);
    let entries = read_archive(bytes).unwrap();
    let steps = plan_extraction(&entries);
    assert_eq!(
        steps,
        vec![
            ExtractStep::Reserved,
            ExtractStep::Reserved,
            ExtractStep::UnsafePath,
            ExtractStep::WriteFile,
            ExtractStep::UnsafePath,
            ExtractStep::WriteFile,
        ]
    );
    assert_eq!(entries[3].as_ref().unwrap().data.as_deref(), Some(&b"hello"[..]));
}

#[test]
fn entry_path_rules() {
    assert!(safe_entry_path("a/b/c.txt"));
    assert!(safe_entry_path("..a/b"));
    assert!(safe_entry_path("a/..b"));
    assert!(!safe_entry_path(".."));
    assert!(safe_entry_path("a/../b"));
    assert!(safe_entry_path("./x"));
    assert!(safe_entry_path("dir/"));
    assert!(!safe_entry_path("a/../../b"));
    assert!(!safe_entry_path("a/./../.."));
    assert!(!safe_entry_path("../../evil"));
    assert!(!safe_entry_path("..\\b"));
    assert!(safe_entry_path("a/.."));
    assert!(!safe_entry_path(""));
    assert!(!safe_entry_path("\\x"));
    assert!(!safe_entry_path("C:x"));
    assert!(!safe_entry_path("C:\\Windows\\evil"));
    assert!(safe_entry_path("notes:x"));
    assert!(is_reserved_path("documentation.json"));
    assert!(!is_reserved_path("docs/graph.json"));
}

#[test]
fn generate_input_checks() {
    assert_eq!(check_generate_input(false, "a.zip"), Err(GenerateError::InputMissing));
    assert_eq!(check_generate_input(true, "a.tar"), Err(GenerateError::NotZip));
    assert_eq!(check_generate_input(true, ".zip"), Err(GenerateError::NotZip));
    assert_eq!(check_generate_input(true, "dir/.zip"), Err(GenerateError::NotZip));
    assert_eq!(check_generate_input(true, "dir/src.zip"), Ok(()));
    assert_eq!(check_generate_input(true, "dir/src.zip/"), Ok(()));
    assert_eq!(check_generate_input(true, "a\\.zip"), Ok(()));
    assert_eq!(check_generate_input(true, "..zip"), Ok(()));
    assert_eq!(check_generate_input(true, "/"), Err(GenerateError::NotZip));
}

#[test]
fn builder_selection_order() {
    let c = builder_candidates();
    assert_eq!(c.len(), 5);
    assert_eq!(c[0], "../builder/target/release/doctown-builder");
    assert_eq!(c[4], "doctown-builder");
    let found = select_builder(&vec![false, false, true, true, false], None);
    assert!(matches!(found, Ok(BuilderPick::Candidate(2))));
    let on_path = select_builder(&vec![false; 5], Some("/usr/bin/doctown-builder".to_string()));
    match on_path {
        Ok(BuilderPick::OnPath(p)) => assert_eq!(p, "/usr/bin/doctown-builder"),
        other => panic!("unexpected {:?}", other),
    }
    assert!(matches!(select_builder(&vec![false; 5], Some(String::new())), Err(GenerateError::BuilderNotFound)));
    assert!(matches!(select_builder(&vec![false; 5], None), Err(GenerateError::BuilderNotFound)));
}

#[test]
fn id_index_finds_first_node() {
    let g = graph();
    let index = NodeIndex::build(&g.nodes);
    assert_eq!(index.find(&g.nodes, "c1"), Some(4));
    assert_eq!(index.find(&g.nodes, "f1"), Some(0));
    assert_eq!(index.find(&g.nodes, "ghost"), None);
    let text = r#"{"nodes": [{"id": "a", "kind": "type", "name": "one"}, {"id": "b", "kind": "type", "name": "x"}, {"id": "a", "kind": "type", "name": "two"}]}"#;
    let dup = load_docpack(zip_bytes(&[("graph.json", text), ("metadata.json", METADATA)])).unwrap().graph;
    assert_eq!(dup.nodes.len(), 2);
    let index = NodeIndex::build(&dup.nodes);
    assert_eq!(index.find(&dup.nodes, "a"), Some(0));
    assert_eq!(index.find(&dup.nodes, "b"), Some(1));
}

#[test]
fn id_hash_values() {
    assert_eq!(hash_id(""), 0);
    assert_eq!(hash_id("a"), 97);
    assert_eq!(hash_id("ab"), 97 * 31 + 98);
}
