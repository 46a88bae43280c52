use obographs::model::{
    BasicPropertyValue, Edge, ExistentialRestrictionExpression, Graph, GraphDocument, Meta, Node,
    NodeType,
};
use obographs::utils::{nullable_vector, optional_vector};

fn meta() -> Meta {
    Meta {
        definition: None,
        comments: Vec::new(),
        subsets: Vec::new(),
        xrefs: Vec::new(),
        synonyms: Vec::new(),
        basic_property_values: Vec::new(),
        version: None,
        deprecated: false,
    }
}

fn graph(id: &str) -> Graph {
    Graph {
        nodes: Vec::new(),
        edges: Vec::new(),
        id: id.to_string(),
        label: None,
        meta: Box::new(meta()),
        equivalent_nodes_sets: Vec::new(),
        logical_definition_axioms: Vec::new(),
        domain_range_axioms: Vec::new(),
        property_chain_axioms: Vec::new(),
    }
}

#[test]
fn optional_vector_defaults_missing_to_empty() {
    let present = optional_vector(Some(vec![1, 2, 3]));
    assert_eq!(present, vec![1, 2, 3]);
    let absent: Vec<i32> = optional_vector(None);
    assert!(absent.is_empty());
}

#[test]
fn nullable_vector_filters_nulls_in_order() {
    let v = nullable_vector(vec![Some(1), None, Some(2), None, Some(3)]);
    assert_eq!(v, vec![1, 2, 3]);
    let empty: Vec<String> = nullable_vector(vec![None, None]);
    assert!(empty.is_empty());
}

#[test]
fn graph_extend_appends_all_sequences() {
    let mut a = graph("http://example.com/a");
    a.nodes.push(Node {
        id: "http://x.org/1".to_string(),
        meta: None,
        ty: Some(NodeType::Class),
        label: None,
    });
    let mut b = graph("http://example.com/b");
    b.nodes.push(Node {
        id: "http://x.org/2".to_string(),
        meta: None,
        ty: Some(NodeType::Class),
        label: None,
    });
    b.edges.push(Edge {
        sub: "http://x.org/2".to_string(),
        pred: "is_a".to_string(),
        obj: "http://x.org/1".to_string(),
        meta: None,
    });
    a.extend(b);
    assert_eq!(a.id, "http://example.com/a");
    assert_eq!(a.nodes.len(), 2);
    assert_eq!(a.nodes[0].id, "http://x.org/1");
    assert_eq!(a.nodes[1].id, "http://x.org/2");
    assert_eq!(a.edges.len(), 1);
}

#[test]
fn basic_property_value_new_has_no_xrefs() {
    let pv = BasicPropertyValue::new("p".to_string(), "v".to_string());
    assert_eq!(pv.pred, "p");
    assert_eq!(pv.val, "v");
    assert!(pv.xrefs.is_empty());
    assert!(pv.meta.is_none());
}

#[test]
fn existential_restriction_new_keeps_fields() {
    let e = ExistentialRestrictionExpression::new("prop".to_string(), "filler".to_string());
    assert_eq!(e.property_id, "prop");
    assert_eq!(e.filler_id, "filler");
}

#[test]
fn graph_document_wrappers() {
    let d = GraphDocument::single(graph("http://example.com/g"));
    assert_eq!(d.graphs.len(), 1);
    assert!(d.meta.is_none());
    let d2 = GraphDocument::from_graphs(vec![
        graph("http://example.com/a"),
        graph("http://example.com/b"),
    ]);
    assert_eq!(d2.graphs.len(), 2);
}

#[test]
fn default_meta_is_empty() {
    let m: Meta = Default::default();
    assert!(m.definition.is_none());
    assert!(m.comments.is_empty());
    assert!(m.version.is_none());
    assert!(!m.deprecated);
}
