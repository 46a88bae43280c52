use obographs::ast::{
    EntityFrame, HeaderClause, HeaderFrame, OboDoc, Synonym, SynonymScope, TermClause, Xref,
};
use obographs::context::{compact_ident, Context};
use obographs::error::Error;
use obographs::from_graph::FromGraph;
use obographs::ident::Ident;
use obographs::into_graph::IntoGraph;
use obographs::model::{
    BasicPropertyValue, Edge, EquivalentNodesSet, Graph, Meta, Node, NodeType,
    SynonymPropertyValue,
};

fn empty_meta() -> Meta {
    Meta {
        definition: None,
        comments: Vec::new(),
        subsets: Vec::new(),
        xrefs: Vec::new(),
        synonyms: Vec::new(),
        basic_property_values: Vec::new(),
        version: None,
        deprecated: false,
    }
}

fn empty_graph(id: &str) -> Graph {
    Graph {
        nodes: Vec::new(),
        edges: Vec::new(),
        id: id.to_string(),
        label: None,
        meta: Box::new(empty_meta()),
        equivalent_nodes_sets: Vec::new(),
        logical_definition_axioms: Vec::new(),
        domain_range_axioms: Vec::new(),
        property_chain_axioms: Vec::new(),
    }
}

fn class_node(id: &str, label: Option<&str>) -> Node {
    Node {
        id: id.to_string(),
        meta: None,
        ty: Some(NodeType::Class),
        label: label.map(|s| s.to_string()),
    }
}

fn ident_text(id: &Ident) -> String {
    id.render()
}

#[test]
fn class_node_with_is_a_edge_becomes_term_frame() {
    // one Class node and one is_a edge convert to one Term frame whose
    // identifier compacts to FOO:0001, with a Name clause and an IsA clause
    let mut g = empty_graph("http://purl.obolibrary.org/obo/foo.owl");
    g.nodes.push(class_node("http://purl.obolibrary.org/obo/FOO_0001", Some("foo")));
    g.edges.push(Edge {
        sub: "http://purl.obolibrary.org/obo/FOO_0001".to_string(),
        pred: "is_a".to_string(),
        obj: "http://purl.obolibrary.org/obo/FOO_0002".to_string(),
        meta: None,
    });
    let doc = OboDoc::from_graph(g).unwrap();
    assert_eq!(doc.entities.len(), 1);
    match &doc.entities[0] {
        EntityFrame::Term(f) => {
            assert_eq!(ident_text(&f.id), "FOO:0001");
            assert_eq!(f.clauses.len(), 2);
            match &f.clauses[0] {
                TermClause::Name(n) => assert_eq!(n, "foo"),
                other => panic!("expected Name clause, got {:?}", clause_tag_term(other)),
            }
            match &f.clauses[1] {
                TermClause::IsA(id) => assert_eq!(ident_text(id), "FOO:0002"),
                other => panic!("expected IsA clause, got {:?}", clause_tag_term(other)),
            }
        }
        _ => panic!("expected a term frame"),
    }
    // the graph id under the OBO base becomes an ontology-name clause
    assert!(doc
        .header
        .clauses
        .iter()
        .any(|c| matches!(c, HeaderClause::Ontology(v) if v == "foo")));
}

fn clause_tag_term(c: &TermClause) -> &'static str {
    match c {
        TermClause::IsAnonymous(_) => "is_anonymous",
        TermClause::Name(_) => "name",
        TermClause::Namespace(_) => "namespace",
        TermClause::AltId(_) => "alt_id",
        TermClause::Def(_, _) => "def",
        TermClause::Comment(_) => "comment",
        TermClause::Subset(_) => "subset",
        TermClause::Synonym(_) => "synonym",
        TermClause::Xref(_) => "xref",
        TermClause::Builtin(_) => "builtin",
        TermClause::PropertyValue(_) => "property_value",
        TermClause::IsA(_) => "is_a",
        TermClause::IntersectionOf(_, _) => "intersection_of",
        TermClause::UnionOf(_) => "union_of",
        TermClause::EquivalentTo(_) => "equivalent_to",
        TermClause::DisjointFrom(_) => "disjoint_from",
        TermClause::Relationship(_, _) => "relationship",
        TermClause::CreatedBy(_) => "created_by",
        TermClause::CreationDate(_) => "creation_date",
        TermClause::IsObsolete(_) => "is_obsolete",
        TermClause::ReplacedBy(_) => "replaced_by",
        TermClause::Consider(_) => "consider",
    }
}

#[test]
fn header_with_data_version_and_ontology_name() {
    // a document header with a data-version and an ontology-name clause
    // converts to a graph whose id is the OBO PURL of the name and whose
    // metadata carries the version string
    let doc = OboDoc {
        header: HeaderFrame {
            clauses: vec![
                HeaderClause::DataVersion("2024-01-01".to_string()),
                HeaderClause::Ontology("foo".to_string()),
            ],
        },
        entities: Vec::new(),
    };
    let gd = doc.into_graph().unwrap();
    assert_eq!(gd.graphs.len(), 1);
    let g = &gd.graphs[0];
    assert_eq!(g.id, "http://purl.obolibrary.org/obo/foo.owl");
    assert_eq!(g.meta.version.as_deref(), Some("2024-01-01"));
}

#[test]
fn dangling_edge_produces_no_clause_and_no_error() {
    // an edge whose subject id has no node is silently dropped
    let mut g = empty_graph("http://example.com/g");
    g.nodes.push(class_node("http://purl.obolibrary.org/obo/FOO_0001", None));
    g.edges.push(Edge {
        sub: "http://purl.obolibrary.org/obo/BAR_0009".to_string(),
        pred: "is_a".to_string(),
        obj: "http://purl.obolibrary.org/obo/FOO_0001".to_string(),
        meta: None,
    });
    let doc = OboDoc::from_graph(g).unwrap();
    assert_eq!(doc.entities.len(), 1);
    match &doc.entities[0] {
        EntityFrame::Term(f) => assert_eq!(f.clauses.len(), 0),
        _ => panic!("expected a term frame"),
    }
}

#[test]
fn unrecognized_synonym_predicate_is_rejected() {
    let pv = SynonymPropertyValue {
        pred: "hasWideSynonym".to_string(),
        val: "wide".to_string(),
        xrefs: Vec::new(),
        meta: None,
    };
    match Synonym::from_graph(&pv) {
        Err(Error::InvalidSynonymType(p)) => assert_eq!(p, "hasWideSynonym"),
        _ => panic!("expected the unrecognized-synonym-predicate error"),
    }
}

#[test]
fn recognized_synonym_scopes_round() {
    for (pred, scope) in [
        ("hasBroadSynonym", SynonymScope::Broad),
        ("hasExactSynonym", SynonymScope::Exact),
        ("hasNarrowSynonym", SynonymScope::Narrow),
        ("hasRelatedSynonym", SynonymScope::Related),
    ] {
        let pv = SynonymPropertyValue {
            pred: pred.to_string(),
            val: "text".to_string(),
            xrefs: vec!["http://purl.obolibrary.org/obo/FOO_0001".to_string()],
            meta: None,
        };
        let s = Synonym::from_graph(&pv).unwrap();
        assert_eq!(s.scope, scope);
        assert_eq!(s.text, "text");
        assert_eq!(s.xrefs.len(), 1);
        // the cross-reference value was parsed, not copied verbatim
        assert!(matches!(&s.xrefs[0], Xref { id: Ident::Url(u), .. }
            if u == "http://purl.obolibrary.org/obo/FOO_0001"));
    }
}

#[test]
fn equivalent_set_gives_each_member_one_clause_per_other() {
    // a set of three term members: each frame gets exactly two
    // EquivalentTo clauses, one per other member
    let mut g = empty_graph("http://example.com/g");
    for n in ["http://x.org/A", "http://x.org/B", "http://x.org/C"] {
        g.nodes.push(class_node(n, None));
    }
    g.equivalent_nodes_sets.push(EquivalentNodesSet {
        meta: None,
        representative_node_id: None,
        node_ids: vec![
            "http://x.org/A".to_string(),
            "http://x.org/B".to_string(),
            "http://x.org/C".to_string(),
        ],
    });
    let doc = OboDoc::from_graph(g).unwrap();
    assert_eq!(doc.entities.len(), 3);
    for e in &doc.entities {
        match e {
            EntityFrame::Term(f) => {
                let eqs: Vec<_> = f
                    .clauses
                    .iter()
                    .filter(|c| matches!(c, TermClause::EquivalentTo(_)))
                    .collect();
                assert_eq!(eqs.len(), 2);
            }
            _ => panic!("expected term frames"),
        }
    }
}

#[test]
fn equivalent_set_on_instance_is_rejected() {
    let mut g = empty_graph("http://example.com/g");
    g.nodes.push(Node {
        id: "http://x.org/I".to_string(),
        meta: None,
        ty: Some(NodeType::Individual),
        label: None,
    });
    g.equivalent_nodes_sets.push(EquivalentNodesSet {
        meta: None,
        representative_node_id: None,
        node_ids: vec!["http://x.org/I".to_string(), "http://x.org/J".to_string()],
    });
    match OboDoc::from_graph(g) {
        Err(Error::InvalidInstanceClause(c)) => assert_eq!(c, "equivalent_to"),
        _ => panic!("expected the invalid-instance-clause error"),
    }
}

#[test]
fn inverse_of_edge_on_term_is_rejected() {
    let mut g = empty_graph("http://example.com/g");
    g.nodes.push(class_node("http://x.org/A", None));
    g.edges.push(Edge {
        sub: "http://x.org/A".to_string(),
        pred: "inverseOf".to_string(),
        obj: "http://x.org/B".to_string(),
        meta: None,
    });
    match OboDoc::from_graph(g) {
        Err(Error::InvalidTermClause(c)) => assert_eq!(c, "inverse_of"),
        _ => panic!("expected the invalid-term-clause error"),
    }
}

#[test]
fn is_a_edge_on_instance_is_rejected() {
    let mut g = empty_graph("http://example.com/g");
    g.nodes.push(Node {
        id: "http://x.org/I".to_string(),
        meta: None,
        ty: Some(NodeType::Individual),
        label: None,
    });
    g.edges.push(Edge {
        sub: "http://x.org/I".to_string(),
        pred: "is_a".to_string(),
        obj: "http://x.org/B".to_string(),
        meta: None,
    });
    match OboDoc::from_graph(g) {
        Err(Error::InvalidInstanceClause(c)) => assert_eq!(c, "is_a"),
        _ => panic!("expected the invalid-instance-clause error"),
    }
}

#[test]
fn malformed_boolean_text_is_rejected() {
    let mut g = empty_graph("http://example.com/g");
    let mut meta = empty_meta();
    meta.basic_property_values.push(BasicPropertyValue::new(
        "http://www.geneontology.org/formats/oboInOwl#is_cyclic".to_string(),
        "maybe".to_string(),
    ));
    g.nodes.push(Node {
        id: "http://x.org/r".to_string(),
        meta: Some(Box::new(meta)),
        ty: Some(NodeType::Property),
        label: None,
    });
    match OboDoc::from_graph(g) {
        Err(Error::InvalidBoolean(t)) => assert_eq!(t, "maybe"),
        _ => panic!("expected the invalid-boolean error"),
    }
}

#[test]
fn malformed_identifier_text_is_rejected() {
    // a node id with whitespace is not a well-formed identifier
    let mut g = empty_graph("http://example.com/g");
    g.nodes.push(class_node("not a valid id", None));
    match OboDoc::from_graph(g) {
        Err(Error::OboSyntaxError(_)) => (),
        _ => panic!("expected a syntax error"),
    }
}

#[test]
fn malformed_creation_date_is_rejected() {
    let mut g = empty_graph("http://example.com/g");
    let mut meta = empty_meta();
    meta.basic_property_values.push(BasicPropertyValue::new(
        "http://www.geneontology.org/formats/oboInOwl#creation_date".to_string(),
        "yesterday-ish".to_string(),
    ));
    g.nodes.push(Node {
        id: "http://x.org/t".to_string(),
        meta: Some(Box::new(meta)),
        ty: Some(NodeType::Class),
        label: None,
    });
    match OboDoc::from_graph(g) {
        Err(Error::OboSyntaxError(_)) => (),
        _ => panic!("expected a syntax error"),
    }
}

#[test]
fn creation_date_clause_is_parsed() {
    let mut g = empty_graph("http://example.com/g");
    let mut meta = empty_meta();
    // the time separators are optional on the way in; the stored text is
    // the canonical rendering of the parsed date, not the input text
    meta.basic_property_values.push(BasicPropertyValue::new(
        "http://www.geneontology.org/formats/oboInOwl#creation_date".to_string(),
        "2021-09-06T130000Z".to_string(),
    ));
    g.nodes.push(Node {
        id: "http://x.org/t".to_string(),
        meta: Some(Box::new(meta)),
        ty: Some(NodeType::Class),
        label: None,
    });
    let doc = OboDoc::from_graph(g).unwrap();
    match &doc.entities[0] {
        EntityFrame::Term(f) => {
            assert!(f
                .clauses
                .iter()
                .any(|c| matches!(c, TermClause::CreationDate(d) if d == "2021-09-06T13:00:00Z")));
        }
        _ => panic!("expected a term frame"),
    }
}

#[test]
fn expansion_of_absolute_identifier_is_a_fixed_point() {
    let header = HeaderFrame { clauses: vec![HeaderClause::Ontology("foo".to_string())] };
    let ctx = Context::from_header(&header);
    let once = ctx.expand(&Ident::Prefixed("FOO".to_string(), "0001".to_string()));
    assert_eq!(once, "http://purl.obolibrary.org/obo/FOO_0001");
    let twice = ctx.expand(&Ident::Url(once.clone()));
    assert_eq!(once, twice);
}

#[test]
fn expansion_uses_declared_and_builtin_idspaces() {
    let header = HeaderFrame {
        clauses: vec![
            HeaderClause::Idspace(
                "WB".to_string(),
                "http://worm.example.org/WB_".to_string(),
                None,
            ),
            HeaderClause::Ontology("foo".to_string()),
        ],
    };
    let ctx = Context::from_header(&header);
    assert_eq!(
        ctx.expand(&Ident::Prefixed("WB".to_string(), "77".to_string())),
        "http://worm.example.org/WB_77"
    );
    assert_eq!(
        ctx.expand(&Ident::Prefixed("BFO".to_string(), "0000050".to_string())),
        "http://purl.obolibrary.org/obo/BFO_0000050"
    );
    assert_eq!(
        ctx.expand(&Ident::Unprefixed("goslim".to_string())),
        "http://purl.obolibrary.org/obo/foo.owl#goslim"
    );
}

#[test]
fn compaction_prefers_longest_declared_base() {
    let idspaces = vec![
        ("A".to_string(), "http://x.org/".to_string()),
        ("B".to_string(), "http://x.org/deep/".to_string()),
    ];
    let c = compact_ident(&idspaces, Ident::Url("http://x.org/deep/7".to_string()));
    assert!(matches!(&c, Ident::Prefixed(p, l) if p == "B" && l == "7"));
}

#[test]
fn compaction_falls_back_to_obo_factorization() {
    let idspaces: Vec<(String, String)> = Vec::new();
    let c = compact_ident(
        &idspaces,
        Ident::Url("http://purl.obolibrary.org/obo/GO_0001".to_string()),
    );
    assert!(matches!(&c, Ident::Prefixed(p, l) if p == "GO" && l == "0001"));
    let kept = compact_ident(&idspaces, Ident::Url("http://example.com/other".to_string()));
    assert!(matches!(&kept, Ident::Url(u) if u == "http://example.com/other"));
}

#[test]
fn frames_are_sorted_by_kind_then_identifier() {
    let mut g = empty_graph("http://example.com/g");
    g.nodes.push(Node {
        id: "http://purl.obolibrary.org/obo/RO_0002".to_string(),
        meta: None,
        ty: Some(NodeType::Property),
        label: None,
    });
    g.nodes.push(class_node("http://purl.obolibrary.org/obo/ZZ_0001", None));
    g.nodes.push(class_node("http://purl.obolibrary.org/obo/AA_0001", None));
    let doc = OboDoc::from_graph(g).unwrap();
    let ids: Vec<String> = doc
        .entities
        .iter()
        .map(|e| match e {
            EntityFrame::Term(f) => format!("T {}", f.id.render()),
            EntityFrame::Typedef(f) => format!("R {}", f.id.render()),
            EntityFrame::Instance(f) => format!("I {}", f.id.render()),
        })
        .collect();
    assert_eq!(ids, vec!["T AA:0001", "T ZZ:0001", "R RO:0002"]);
}

#[test]
fn untyped_node_contributes_no_frame() {
    let mut g = empty_graph("http://example.com/g");
    g.nodes.push(Node {
        id: "http://x.org/untyped".to_string(),
        meta: None,
        ty: None,
        label: Some("ghostly".to_string()),
    });
    let doc = OboDoc::from_graph(g).unwrap();
    assert_eq!(doc.entities.len(), 0);
}

#[test]
fn rendering_escapes_special_characters() {
    let id = Ident::Prefixed("A B".to_string(), "x:y".to_string());
    assert_eq!(id.render(), "A\\ B:x\\:y");
    let bare = Ident::Unprefixed("part_of".to_string());
    assert_eq!(bare.render(), "part_of");
}

#[test]
fn empty_graph_converts_to_empty_document() {
    let doc = OboDoc::from_graph(empty_graph("http://example.com/nothing")).unwrap();
    assert!(doc.header.clauses.is_empty());
    assert!(doc.entities.is_empty());
}

#[test]
fn instance_node_with_relationship_edge() {
    let mut g = empty_graph("http://example.com/g");
    g.nodes.push(Node {
        id: "http://purl.obolibrary.org/obo/IND_1".to_string(),
        meta: None,
        ty: Some(NodeType::Individual),
        label: Some("an individual".to_string()),
    });
    g.edges.push(Edge {
        sub: "http://purl.obolibrary.org/obo/IND_1".to_string(),
        pred: "http://purl.obolibrary.org/obo/REL_1".to_string(),
        obj: "http://purl.obolibrary.org/obo/FOO_1".to_string(),
        meta: None,
    });
    let doc = OboDoc::from_graph(g).unwrap();
    assert_eq!(doc.entities.len(), 1);
    match &doc.entities[0] {
        EntityFrame::Instance(f) => {
            assert_eq!(f.id.render(), "IND:1");
            assert!(matches!(&f.clauses[0],
                obographs::ast::InstanceClause::Name(n) if n == "an individual"));
            assert!(f.clauses.iter().any(|c| matches!(c,
                obographs::ast::InstanceClause::Relationship(r, o)
                    if r.render() == "REL:1" && o.render() == "FOO:1")));
        }
        _ => panic!("expected an instance frame"),
    }
}

#[test]
fn comma_fraction_date_is_an_error_not_a_panic() {
    // the date grammar admits a comma as the fraction separator, but the
    // date parser cannot take one; the library rejects the text up front
    let mut g = empty_graph("http://example.com/g");
    let mut meta = empty_meta();
    meta.basic_property_values.push(BasicPropertyValue::new(
        "http://www.geneontology.org/formats/oboInOwl#creation_date".to_string(),
        "2015-08-11T10:00:00,5".to_string(),
    ));
    g.nodes.push(Node {
        id: "http://x.org/t".to_string(),
        meta: Some(Box::new(meta)),
        ty: Some(NodeType::Class),
        label: None,
    });
    match OboDoc::from_graph(g) {
        Err(Error::OboSyntaxError(_)) => (),
        _ => panic!("expected a syntax error"),
    }
}
