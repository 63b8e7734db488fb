use daneel::graph::{
    edge_from_row, graphml_document, merge_edge_query, neighbors_query, GraphEdge, GRAPHML_FOOTER,
    GRAPHML_HEADER,
};
use daneel::memory_db::types::{AssociationType, MemoryId};

const A: &str = "00000000-0000-4000-8000-000000000001";
const B: &str = "00000000-0000-4000-8000-000000000002";

fn id(n: u128) -> MemoryId {
    MemoryId(0x0000_0000_0000_4000_8000_0000_0000_0000 | n)
}

#[test]
fn merge_edge_query_text() {
    let q = merge_edge_query(id(1), id(2), AssociationType::Semantic, "0.75");
    assert_eq!(
        q,
        format!(
            "MERGE (a:Memory {{id: '{A}'}}) MERGE (b:Memory {{id: '{B}'}}) \
             MERGE (a)-[r:ASSOCIATED {{type: 'Semantic'}}]->(b) SET r.weight = 0.75"
        )
    );
}

#[test]
fn merge_edge_query_uses_type_name() {
    let q = merge_edge_query(id(1), id(2), AssociationType::Causal, "1");
    assert!(q.contains("{type: 'Causal'}"));
}

#[test]
fn neighbors_query_outgoing_only() {
    let q = neighbors_query(id(1), "0.5", false);
    assert_eq!(
        q,
        format!(
            "MATCH (a:Memory {{id: '{A}'}})-[r:ASSOCIATED]->(b:Memory) \
             WHERE r.weight >= 0.5 RETURN b.id, r.weight"
        )
    );
}

#[test]
fn neighbors_query_bidirectional() {
    let q = neighbors_query(id(1), "0.5", true);
    assert_eq!(
        q,
        format!(
            "MATCH (a:Memory {{id: '{A}'}})-[r:ASSOCIATED]->(b:Memory) \
             WHERE r.weight >= 0.5 RETURN b.id, r.weight \
             UNION \
             MATCH (a:Memory {{id: '{A}'}})<-[r:ASSOCIATED]-(b:Memory) \
             WHERE r.weight >= 0.5 RETURN b.id, r.weight"
        )
    );
}

#[test]
fn association_type_names() {
    assert_eq!(AssociationType::Semantic.name(), "Semantic");
    assert_eq!(AssociationType::Temporal.name(), "Temporal");
    assert_eq!(AssociationType::Causal.name(), "Causal");
    assert_eq!(AssociationType::Emotional.name(), "Emotional");
    assert_eq!(AssociationType::Spatial.name(), "Spatial");
    assert_eq!(AssociationType::Goal.name(), "Goal");
}

#[test]
fn graphml_empty_graph() {
    let xml = graphml_document(&vec![], &vec![]);
    assert_eq!(xml, format!("{GRAPHML_HEADER}{GRAPHML_FOOTER}"));
    assert!(xml.starts_with("<?xml version=\"1.0\" encoding=\"UTF-8\"?>\n<graphml"));
    assert!(xml.ends_with("  </graph>\n</graphml>\n"));
}

#[test]
fn graphml_nodes_and_edges() {
    let nodes = vec!["n1".to_string(), "n2".to_string()];
    let edges = vec![
        GraphEdge {
            source: "n1".to_string(),
            target: "n2".to_string(),
            weight: "0.5".to_string(),
            edge_type: "Semantic".to_string(),
        },
        GraphEdge {
            source: "n2".to_string(),
            target: "n1".to_string(),
            weight: "1".to_string(),
            edge_type: "Causal".to_string(),
        },
    ];
    let xml = graphml_document(&nodes, &edges);
    let expected_body = "    <node id=\"n1\"/>\n    <node id=\"n2\"/>\n\
        \x20   <edge id=\"e0\" source=\"n1\" target=\"n2\">\n\
        \x20     <data key=\"weight\">0.5</data>\n\
        \x20     <data key=\"type\">Semantic</data>\n\
        \x20   </edge>\n\
        \x20   <edge id=\"e1\" source=\"n2\" target=\"n1\">\n\
        \x20     <data key=\"weight\">1</data>\n\
        \x20     <data key=\"type\">Causal</data>\n\
        \x20   </edge>\n";
    assert_eq!(xml, format!("{GRAPHML_HEADER}{expected_body}{GRAPHML_FOOTER}"));
}

#[test]
fn graphml_header_declares_keys() {
    assert!(GRAPHML_HEADER.contains(
        "<key id=\"weight\" for=\"edge\" attr.name=\"weight\" attr.type=\"double\"/>"
    ));
    assert!(GRAPHML_HEADER
        .contains("<key id=\"type\" for=\"edge\" attr.name=\"type\" attr.type=\"string\"/>"));
    assert!(GRAPHML_HEADER.ends_with("  <graph id=\"daneel\" edgedefault=\"directed\">\n"));
}

#[test]
fn edge_row_needs_both_endpoints() {
    assert!(edge_from_row(None, Some("b".to_string()), None, None).is_none());
    assert!(edge_from_row(Some("a".to_string()), None, None, None).is_none());
}

#[test]
fn edge_row_defaults() {
    let e = edge_from_row(Some("a".to_string()), Some("b".to_string()), None, None).unwrap();
    assert_eq!(e.source, "a");
    assert_eq!(e.target, "b");
    assert_eq!(e.weight, "0");
    assert_eq!(e.edge_type, "Unknown");
    let e = edge_from_row(
        Some("a".to_string()),
        Some("b".to_string()),
        Some("0.25".to_string()),
        Some("Goal".to_string()),
    )
    .unwrap();
    assert_eq!(e.weight, "0.25");
    assert_eq!(e.edge_type, "Goal");
}

#[test]
fn memory_id_text_is_hyphenated() {
    assert_eq!(id(1).to_string(), A);
}
