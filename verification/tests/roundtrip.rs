use obographs::ast::{
    EntityFrame, HeaderClause, HeaderFrame, OboDoc, PropertyValue, Synonym, SynonymScope,
    TermClause, TermFrame, TypedefClause, TypedefFrame, Xref,
};
use obographs::from_graph::FromGraph;
use obographs::ident::Ident;
use obographs::into_graph::IntoGraph;
use obographs::model::{DomainRangeAxiom, Graph, GraphDocument, Meta, Node, NodeType};

fn pid(p: &str, l: &str) -> Ident {
    Ident::Prefixed(p.to_string(), l.to_string())
}

fn reduced_doc() -> OboDoc {
    OboDoc {
        header: HeaderFrame { clauses: vec![HeaderClause::Ontology("foo".to_string())] },
        entities: vec![EntityFrame::Term(TermFrame {
            id: pid("FOO", "0001"),
            clauses: vec![
                TermClause::Name("alpha".to_string()),
                TermClause::Xref(Xref { id: pid("BAR", "7"), description: None }),
                TermClause::Synonym(Synonym {
                    text: "first".to_string(),
                    scope: SynonymScope::Exact,
                    ty: None,
                    xrefs: Vec::new(),
                }),
                TermClause::Namespace(pid("NS", "x")),
                TermClause::CreatedBy("someone".to_string()),
                TermClause::PropertyValue(PropertyValue::Resource(
                    pid("PROP", "1"),
                    pid("VAL", "2"),
                )),
                TermClause::PropertyValue(PropertyValue::Literal(
                    pid("PROP", "2"),
                    "plain text value".to_string(),
                    Ident::Prefixed("xsd".to_string(), "string".to_string()),
                )),
                TermClause::IsObsolete(true),
                TermClause::IsA(pid("FOO", "0002")),
                TermClause::Relationship(pid("REL", "1"), pid("FOO", "0003")),
            ],
        })],
    }
}

#[test]
fn document_to_graph_and_back_reproduces_entities_and_clauses() {
    // round trip over the reduced feature set: nodes, is-a/relationship
    // edges, synonyms, xrefs and property values, with canonical prefixed
    // identifiers and a canonical clause order
    let gd: GraphDocument = reduced_doc().into_graph().unwrap();
    assert_eq!(gd.graphs.len(), 1);
    let back = OboDoc::from_graph(gd.graphs.into_iter().next().unwrap()).unwrap();

    assert_eq!(back.header.clauses.len(), 1);
    assert!(matches!(&back.header.clauses[0], HeaderClause::Ontology(v) if v == "foo"));

    assert_eq!(back.entities.len(), 1);
    let f = match &back.entities[0] {
        EntityFrame::Term(f) => f,
        _ => panic!("expected a term frame"),
    };
    assert_eq!(f.id.render(), "FOO:0001");
    let tags: Vec<String> = f.clauses.iter().map(term_clause_text).collect();
    assert_eq!(
        tags,
        vec![
            "name alpha",
            "xref BAR:7",
            "synonym exact first",
            "namespace NS:x",
            "created_by someone",
            "pv-resource PROP:1 VAL:2",
            "pv-literal PROP:2 plain text value xsd:string",
            "is_obsolete true",
            "is_a FOO:0002",
            "relationship REL:1 FOO:0003",
        ]
    );
}

fn term_clause_text(c: &TermClause) -> String {
    match c {
        TermClause::Name(n) => format!("name {}", n),
        TermClause::Xref(x) => format!("xref {}", x.id.render()),
        TermClause::Synonym(s) => {
            let scope = match s.scope {
                SynonymScope::Broad => "broad",
                SynonymScope::Exact => "exact",
                SynonymScope::Narrow => "narrow",
                SynonymScope::Related => "related",
            };
            format!("synonym {} {}", scope, s.text)
        }
        TermClause::Namespace(id) => format!("namespace {}", id.render()),
        TermClause::CreatedBy(n) => format!("created_by {}", n),
        TermClause::PropertyValue(PropertyValue::Resource(p, t)) => {
            format!("pv-resource {} {}", p.render(), t.render())
        }
        TermClause::PropertyValue(PropertyValue::Literal(p, v, ty)) => {
            format!("pv-literal {} {} {}", p.render(), v, ty.render())
        }
        TermClause::IsObsolete(b) => format!("is_obsolete {}", b),
        TermClause::IsA(id) => format!("is_a {}", id.render()),
        TermClause::Relationship(r, o) => {
            format!("relationship {} {}", r.render(), o.render())
        }
        _ => "other".to_string(),
    }
}

#[test]
fn into_graph_populates_node_and_metadata() {
    let gd = reduced_doc().into_graph().unwrap();
    let g: &Graph = &gd.graphs[0];
    assert_eq!(g.id, "http://purl.obolibrary.org/obo/foo.owl");
    assert_eq!(g.nodes.len(), 1);
    let n = &g.nodes[0];
    assert_eq!(n.id, "http://purl.obolibrary.org/obo/FOO_0001");
    assert_eq!(n.ty, Some(NodeType::Class));
    assert_eq!(n.label.as_deref(), Some("alpha"));
    let meta: &Meta = n.meta.as_deref().unwrap();
    assert_eq!(meta.xrefs.len(), 1);
    assert_eq!(meta.xrefs[0].val, "http://purl.obolibrary.org/obo/BAR_7");
    assert_eq!(meta.synonyms.len(), 1);
    assert_eq!(meta.synonyms[0].pred, "hasExactSynonym");
    assert_eq!(meta.synonyms[0].val, "first");
    assert_eq!(meta.basic_property_values.len(), 4);
    assert_eq!(
        meta.basic_property_values[0].pred,
        "http://www.geneontology.org/formats/oboInOwl#hasOBONamespace"
    );
    assert_eq!(meta.basic_property_values[0].val, "NS:x");
    assert_eq!(
        meta.basic_property_values[1].pred,
        "http://www.geneontology.org/formats/oboInOwl#created_by"
    );
    assert_eq!(meta.basic_property_values[1].val, "someone");
    assert_eq!(
        meta.basic_property_values[2].pred,
        "http://purl.obolibrary.org/obo/PROP_1"
    );
    assert_eq!(
        meta.basic_property_values[2].val,
        "http://purl.obolibrary.org/obo/VAL_2"
    );
    assert_eq!(
        meta.basic_property_values[3].val,
        "plain text value"
    );
    assert!(meta.deprecated);
    // two edges: the subclass edge and the relationship edge, in clause order
    assert_eq!(g.edges.len(), 2);
    assert_eq!(g.edges[0].pred, "is_a");
    assert_eq!(g.edges[0].obj, "http://purl.obolibrary.org/obo/FOO_0002");
    assert_eq!(g.edges[1].pred, "http://purl.obolibrary.org/obo/REL_1");
    assert_eq!(g.edges[1].obj, "http://purl.obolibrary.org/obo/FOO_0003");
}

#[test]
fn typedef_domain_and_range_collect_into_one_axiom() {
    let doc = OboDoc {
        header: HeaderFrame { clauses: vec![HeaderClause::Ontology("r".to_string())] },
        entities: vec![EntityFrame::Typedef(TypedefFrame {
            id: pid("REL", "1"),
            clauses: vec![
                TypedefClause::Domain(pid("FOO", "1")),
                TypedefClause::Range(pid("FOO", "2")),
                TypedefClause::Domain(pid("FOO", "3")),
            ],
        })],
    };
    let gd = doc.into_graph().unwrap();
    let g = &gd.graphs[0];
    assert_eq!(g.domain_range_axioms.len(), 1);
    let dra = &g.domain_range_axioms[0];
    assert_eq!(dra.predicate_id, "http://purl.obolibrary.org/obo/REL_1");
    assert_eq!(
        dra.domain_class_ids,
        vec![
            "http://purl.obolibrary.org/obo/FOO_1".to_string(),
            "http://purl.obolibrary.org/obo/FOO_3".to_string(),
        ]
    );
    assert_eq!(dra.range_class_ids, vec!["http://purl.obolibrary.org/obo/FOO_2".to_string()]);
    assert_eq!(g.nodes[0].ty, Some(NodeType::Property));
}

#[test]
fn domain_range_axiom_attaches_to_typedef_frame() {
    let mut g = Graph {
        nodes: vec![Node {
            id: "http://purl.obolibrary.org/obo/REL_1".to_string(),
            meta: None,
            ty: Some(NodeType::Property),
            label: None,
        }],
        edges: Vec::new(),
        id: "http://example.com/g".to_string(),
        label: None,
        meta: Box::new(Meta {
            definition: None,
            comments: Vec::new(),
            subsets: Vec::new(),
            xrefs: Vec::new(),
            synonyms: Vec::new(),
            basic_property_values: Vec::new(),
            version: None,
            deprecated: false,
        }),
        equivalent_nodes_sets: Vec::new(),
        logical_definition_axioms: Vec::new(),
        domain_range_axioms: Vec::new(),
        property_chain_axioms: Vec::new(),
    };
    g.domain_range_axioms.push(DomainRangeAxiom {
        meta: None,
        predicate_id: "http://purl.obolibrary.org/obo/REL_1".to_string(),
        domain_class_ids: vec!["http://purl.obolibrary.org/obo/FOO_1".to_string()],
        range_class_ids: vec!["http://purl.obolibrary.org/obo/FOO_2".to_string()],
        all_values_from_edges: Vec::new(),
    });
    // an axiom whose predicate has no typedef frame is silently dropped
    g.domain_range_axioms.push(DomainRangeAxiom {
        meta: None,
        predicate_id: "http://purl.obolibrary.org/obo/NONE_9".to_string(),
        domain_class_ids: vec!["http://purl.obolibrary.org/obo/FOO_1".to_string()],
        range_class_ids: Vec::new(),
        all_values_from_edges: Vec::new(),
    });
    let doc = OboDoc::from_graph(g).unwrap();
    assert_eq!(doc.entities.len(), 1);
    match &doc.entities[0] {
        EntityFrame::Typedef(f) => {
            assert!(f
                .clauses
                .iter()
                .any(|c| matches!(c, TypedefClause::Domain(id) if id.render() == "FOO:1")));
            assert!(f
                .clauses
                .iter()
                .any(|c| matches!(c, TypedefClause::Range(id) if id.render() == "FOO:2")));
        }
        _ => panic!("expected a typedef frame"),
    }
}
