//! The OBO graph data model: documents of graphs, nodes, edges, and the
//! auxiliary axiom collections, together with their spec-level views.
//!
//! Identifiers in this model are absolute URIs kept as plain strings; the
//! fixed string rules of the conversion (such as the `is_a` predicate)
//! interpret them.

use vstd::prelude::*;

verus! {

/// The kind of entity a node stands for. Nodes without a type are ignored
/// when a document is synthesized from a graph.
#[derive(Clone, Copy, PartialEq, Eq, Structural, Debug)]
pub enum NodeType {
    Class,
    Individual,
    Property,
}

// ---------------------------------------------------------------------
// Spec-level views
// ---------------------------------------------------------------------

#[verifier::ext_equal]
pub struct DefinitionPvView {
    pub pred: Option<Seq<char>>,
    pub val: Seq<char>,
    pub xrefs: Seq<Seq<char>>,
}

#[verifier::ext_equal]
pub struct XrefPvView {
    pub pred: Option<Seq<char>>,
    pub val: Seq<char>,
    pub xrefs: Seq<Seq<char>>,
    pub label: Option<Seq<char>>,
}

#[verifier::ext_equal]
pub struct SynonymPvView {
    pub pred: Seq<char>,
    pub val: Seq<char>,
    pub xrefs: Seq<Seq<char>>,
}

#[verifier::ext_equal]
pub struct BasicPvView {
    pub pred: Seq<char>,
    pub val: Seq<char>,
    pub xrefs: Seq<Seq<char>>,
}

#[verifier::ext_equal]
pub struct MetaView {
    pub definition: Option<DefinitionPvView>,
    pub comments: Seq<Seq<char>>,
    pub subsets: Seq<Seq<char>>,
    pub xrefs: Seq<XrefPvView>,
    pub synonyms: Seq<SynonymPvView>,
    pub basic_property_values: Seq<BasicPvView>,
    pub version: Option<Seq<char>>,
    pub deprecated: bool,
}

#[verifier::ext_equal]
pub struct NodeView {
    pub id: Seq<char>,
    pub meta: Option<MetaView>,
    pub ty: Option<NodeType>,
    pub label: Option<Seq<char>>,
}

#[verifier::ext_equal]
pub struct EdgeView {
    pub sub: Seq<char>,
    pub pred: Seq<char>,
    pub obj: Seq<char>,
    pub meta: Option<MetaView>,
}

#[verifier::ext_equal]
pub struct EquivalentNodesSetView {
    pub meta: Option<MetaView>,
    pub representative_node_id: Option<Seq<char>>,
    pub node_ids: Seq<Seq<char>>,
}

#[verifier::ext_equal]
pub struct ExistentialRestrictionView {
    pub property_id: Seq<char>,
    pub filler_id: Seq<char>,
}

#[verifier::ext_equal]
pub struct LogicalDefinitionAxiomView {
    pub meta: Option<MetaView>,
    pub defined_class_id: Seq<char>,
    pub genus_ids: Seq<Seq<char>>,
    pub restrictions: Seq<ExistentialRestrictionView>,
}

#[verifier::ext_equal]
pub struct DomainRangeAxiomView {
    pub meta: Option<MetaView>,
    pub predicate_id: Seq<char>,
    pub domain_class_ids: Seq<Seq<char>>,
    pub range_class_ids: Seq<Seq<char>>,
    pub all_values_from_edges: Seq<EdgeView>,
}

#[verifier::ext_equal]
pub struct PropertyChainAxiomView {
    pub meta: Option<MetaView>,
    pub predicate_id: Seq<char>,
    pub chain_predicate_ids: Seq<Seq<char>>,
}

#[verifier::ext_equal]
pub struct GraphView {
    pub nodes: Seq<NodeView>,
    pub edges: Seq<EdgeView>,
    pub id: Seq<char>,
    pub label: Option<Seq<char>>,
    pub meta: MetaView,
    pub equivalent_nodes_sets: Seq<EquivalentNodesSetView>,
    pub logical_definition_axioms: Seq<LogicalDefinitionAxiomView>,
    pub domain_range_axioms: Seq<DomainRangeAxiomView>,
    pub property_chain_axioms: Seq<PropertyChainAxiomView>,
}

#[verifier::ext_equal]
pub struct GraphDocumentView {
    pub graphs: Seq<GraphView>,
    pub meta: Option<MetaView>,
}

/// View of an optional string.
pub open spec fn opt_str_view(s: &Option<String>) -> Option<Seq<char>> {
    match s {
        Some(x) => Some(x@),
        None => None,
    }
}

/// View of a list of strings.
pub open spec fn strs_view(v: &Vec<String>) -> Seq<Seq<char>> {
    v@.map_values(|s: String| s@)
}

// ---------------------------------------------------------------------
// Executable model
// ---------------------------------------------------------------------

/// The value of a definition clause: the text and its cross-references.
/// The nested `meta` field is carried for wire compatibility only; the
/// conversion neither reads nor produces it, so the view omits it (the same
/// holds for the other three property-value types).
pub struct DefinitionPropertyValue {
    pub pred: Option<String>,
    pub val: String,
    pub xrefs: Vec<String>,
    pub meta: Option<Box<Meta>>,
}

/// A cross-reference attached to an entity or to the document.
pub struct XrefPropertyValue {
    pub pred: Option<String>,
    pub val: String,
    pub xrefs: Vec<String>,
    pub meta: Option<Box<Meta>>,
    pub label: Option<String>,
}

/// A synonym with its scope predicate and cross-references.
pub struct SynonymPropertyValue {
    pub pred: String,
    pub val: String,
    pub xrefs: Vec<String>,
    pub meta: Option<Box<Meta>>,
}

/// A generic predicate/value pair.
pub struct BasicPropertyValue {
    pub pred: String,
    pub val: String,
    pub xrefs: Vec<String>,
    pub meta: Option<Box<Meta>>,
}

/// The metadata block attached to the document, to a graph, or to a node.
pub struct Meta {
    pub definition: Option<Box<DefinitionPropertyValue>>,
    pub comments: Vec<String>,
    pub subsets: Vec<String>,
    pub xrefs: Vec<XrefPropertyValue>,
    pub synonyms: Vec<SynonymPropertyValue>,
    pub basic_property_values: Vec<BasicPropertyValue>,
    pub version: Option<String>,
    pub deprecated: bool,
}

/// One graph node: an entity with an absolute URI identifier.
pub struct Node {
    pub id: String,
    pub meta: Option<Box<Meta>>,
    pub ty: Option<NodeType>,
    pub label: Option<String>,
}

/// A directed, labeled relationship between two nodes.
pub struct Edge {
    pub sub: String,
    pub pred: String,
    pub obj: String,
    pub meta: Option<Box<Meta>>,
}

/// A set of node identifiers declared mutually equivalent.
pub struct EquivalentNodesSet {
    pub meta: Option<Box<Meta>>,
    pub representative_node_id: Option<String>,
    pub node_ids: Vec<String>,
}

/// An existential restriction used inside logical definitions.
pub struct ExistentialRestrictionExpression {
    pub property_id: String,
    pub filler_id: String,
}

/// A genus/differentia definition of a class.
pub struct LogicalDefinitionAxiom {
    pub meta: Option<Box<Meta>>,
    pub defined_class_id: String,
    pub genus_ids: Vec<String>,
    pub restrictions: Vec<ExistentialRestrictionExpression>,
}

/// The permitted subject and object classes of a relation.
pub struct DomainRangeAxiom {
    pub meta: Option<Box<Meta>>,
    pub predicate_id: String,
    pub domain_class_ids: Vec<String>,
    pub range_class_ids: Vec<String>,
    pub all_values_from_edges: Vec<Edge>,
}

/// A relation implied by a chain of relations.
pub struct PropertyChainAxiom {
    pub meta: Option<Box<Meta>>,
    pub predicate_id: String,
    pub chain_predicate_ids: Vec<String>,
}

/// One graph: nodes, edges, axiom collections and its own metadata.
pub struct Graph {
    pub nodes: Vec<Node>,
    pub edges: Vec<Edge>,
    pub id: String,
    pub label: Option<String>,
    pub meta: Box<Meta>,
    pub equivalent_nodes_sets: Vec<EquivalentNodesSet>,
    pub logical_definition_axioms: Vec<LogicalDefinitionAxiom>,
    pub domain_range_axioms: Vec<DomainRangeAxiom>,
    pub property_chain_axioms: Vec<PropertyChainAxiom>,
}

/// An ordered collection of graphs with optional document-level metadata.
pub struct GraphDocument {
    pub graphs: Vec<Graph>,
    pub meta: Option<Box<Meta>>,
}

// ---------------------------------------------------------------------
// View impls
// ---------------------------------------------------------------------

impl View for DefinitionPropertyValue {
    type V = DefinitionPvView;

    open spec fn view(&self) -> DefinitionPvView {
        DefinitionPvView {
            pred: opt_str_view(&self.pred),
            val: self.val@,
            xrefs: strs_view(&self.xrefs),
        }
    }
}

impl View for XrefPropertyValue {
    type V = XrefPvView;

    open spec fn view(&self) -> XrefPvView {
        XrefPvView {
            pred: opt_str_view(&self.pred),
            val: self.val@,
            xrefs: strs_view(&self.xrefs),
            label: opt_str_view(&self.label),
        }
    }
}

impl View for SynonymPropertyValue {
    type V = SynonymPvView;

    open spec fn view(&self) -> SynonymPvView {
        SynonymPvView {
            pred: self.pred@,
            val: self.val@,
            xrefs: strs_view(&self.xrefs),
        }
    }
}

impl View for BasicPropertyValue {
    type V = BasicPvView;

    open spec fn view(&self) -> BasicPvView {
        BasicPvView {
            pred: self.pred@,
            val: self.val@,
            xrefs: strs_view(&self.xrefs),
        }
    }
}

/// View of an optional boxed metadata block.
pub open spec fn opt_meta_view(m: &Option<Box<Meta>>) -> Option<MetaView> {
    match m {
        Some(b) => Some(b@),
        None => None,
    }
}

impl View for Meta {
    type V = MetaView;

    open spec fn view(&self) -> MetaView {
        MetaView {
            definition: match &self.definition {
                Some(d) => Some(d@),
                None => None,
            },
            comments: strs_view(&self.comments),
            subsets: strs_view(&self.subsets),
            xrefs: self.xrefs@.map_values(|x: XrefPropertyValue| x@),
            synonyms: self.synonyms@.map_values(|x: SynonymPropertyValue| x@),
            basic_property_values: self.basic_property_values@.map_values(
                |x: BasicPropertyValue| x@,
            ),
            version: opt_str_view(&self.version),
            deprecated: self.deprecated,
        }
    }
}

impl View for Node {
    type V = NodeView;

    open spec fn view(&self) -> NodeView {
        NodeView {
            id: self.id@,
            meta: opt_meta_view(&self.meta),
            ty: self.ty,
            label: opt_str_view(&self.label),
        }
    }
}

impl View for Edge {
    type V = EdgeView;

    open spec fn view(&self) -> EdgeView {
        EdgeView {
            sub: self.sub@,
            pred: self.pred@,
            obj: self.obj@,
            meta: opt_meta_view(&self.meta),
        }
    }
}

impl View for EquivalentNodesSet {
    type V = EquivalentNodesSetView;

    open spec fn view(&self) -> EquivalentNodesSetView {
        EquivalentNodesSetView {
            meta: opt_meta_view(&self.meta),
            representative_node_id: opt_str_view(&self.representative_node_id),
            node_ids: strs_view(&self.node_ids),
        }
    }
}

impl View for ExistentialRestrictionExpression {
    type V = ExistentialRestrictionView;

    open spec fn view(&self) -> ExistentialRestrictionView {
        ExistentialRestrictionView { property_id: self.property_id@, filler_id: self.filler_id@ }
    }
}

impl View for LogicalDefinitionAxiom {
    type V = LogicalDefinitionAxiomView;

    open spec fn view(&self) -> LogicalDefinitionAxiomView {
        LogicalDefinitionAxiomView {
            meta: opt_meta_view(&self.meta),
            defined_class_id: self.defined_class_id@,
            genus_ids: strs_view(&self.genus_ids),
            restrictions: self.restrictions@.map_values(
                |x: ExistentialRestrictionExpression| x@,
            ),
        }
    }
}

impl View for DomainRangeAxiom {
    type V = DomainRangeAxiomView;

    open spec fn view(&self) -> DomainRangeAxiomView {
        DomainRangeAxiomView {
            meta: opt_meta_view(&self.meta),
            predicate_id: self.predicate_id@,
            domain_class_ids: strs_view(&self.domain_class_ids),
            range_class_ids: strs_view(&self.range_class_ids),
            all_values_from_edges: self.all_values_from_edges@.map_values(|x: Edge| x@),
        }
    }
}

impl View for PropertyChainAxiom {
    type V = PropertyChainAxiomView;

    open spec fn view(&self) -> PropertyChainAxiomView {
        PropertyChainAxiomView {
            meta: opt_meta_view(&self.meta),
            predicate_id: self.predicate_id@,
            chain_predicate_ids: strs_view(&self.chain_predicate_ids),
        }
    }
}

impl View for Graph {
    type V = GraphView;

    open spec fn view(&self) -> GraphView {
        GraphView {
            nodes: self.nodes@.map_values(|x: Node| x@),
            edges: self.edges@.map_values(|x: Edge| x@),
            id: self.id@,
            label: opt_str_view(&self.label),
            meta: self.meta@,
            equivalent_nodes_sets: self.equivalent_nodes_sets@.map_values(
                |x: EquivalentNodesSet| x@,
            ),
            logical_definition_axioms: self.logical_definition_axioms@.map_values(
                |x: LogicalDefinitionAxiom| x@,
            ),
            domain_range_axioms: self.domain_range_axioms@.map_values(|x: DomainRangeAxiom| x@),
            property_chain_axioms: self.property_chain_axioms@.map_values(
                |x: PropertyChainAxiom| x@,
            ),
        }
    }
}

impl View for GraphDocument {
    type V = GraphDocumentView;

    open spec fn view(&self) -> GraphDocumentView {
        GraphDocumentView {
            graphs: self.graphs@.map_values(|x: Graph| x@),
            meta: opt_meta_view(&self.meta),
        }
    }
}

// ---------------------------------------------------------------------
// Constructors and operations
// ---------------------------------------------------------------------

impl Meta {
    /// An empty metadata block: no definition or version, empty lists, not
    /// deprecated.
    pub open spec fn empty_view() -> MetaView {
        MetaView {
            definition: None,
            comments: Seq::empty(),
            subsets: Seq::empty(),
            xrefs: Seq::empty(),
            synonyms: Seq::empty(),
            basic_property_values: Seq::empty(),
            version: None,
            deprecated: false,
        }
    }

    /// Builds an empty metadata block.
    pub fn empty() -> (r: Meta)
        ensures
            r@ == Meta::empty_view(),
    {
        let r = Meta {
            definition: None,
            comments: Vec::new(),
            subsets: Vec::new(),
            xrefs: Vec::new(),
            synonyms: Vec::new(),
            basic_property_values: Vec::new(),
            version: None,
            deprecated: false,
        };
        assert(r@ =~= Meta::empty_view());
        r
    }
}

impl Default for Meta {
    fn default() -> (r: Meta)
        ensures
            r@ == Meta::empty_view(),
    {
        Meta::empty()
    }
}

impl Graph {
    /// Appends every sequence of `other` onto `self`, in order, keeping
    /// `self`'s identifier, label and metadata. This is the merge primitive
    /// used when folding per-entity fragments into one graph: append-only,
    /// no de-duplication.
    pub fn extend(&mut self, other: Self)
        ensures
            final(self)@.nodes == old(self)@.nodes + other@.nodes,
            final(self)@.edges == old(self)@.edges + other@.edges,
            final(self)@.equivalent_nodes_sets == old(self)@.equivalent_nodes_sets
                + other@.equivalent_nodes_sets,
            final(self)@.logical_definition_axioms == old(self)@.logical_definition_axioms
                + other@.logical_definition_axioms,
            final(self)@.domain_range_axioms == old(self)@.domain_range_axioms
                + other@.domain_range_axioms,
            final(self)@.property_chain_axioms == old(self)@.property_chain_axioms
                + other@.property_chain_axioms,
            final(self)@.id == old(self)@.id,
            final(self)@.label == old(self)@.label,
            final(self)@.meta == old(self)@.meta,
    {
        let Graph {
            nodes,
            edges,
            id: _,
            label: _,
            meta: _,
            equivalent_nodes_sets,
            logical_definition_axioms,
            domain_range_axioms,
            property_chain_axioms,
        } = other;
        let mut nodes = nodes;
        let mut edges = edges;
        let mut equivalent_nodes_sets = equivalent_nodes_sets;
        let mut logical_definition_axioms = logical_definition_axioms;
        let mut domain_range_axioms = domain_range_axioms;
        let mut property_chain_axioms = property_chain_axioms;
        self.nodes.append(&mut nodes);
        self.edges.append(&mut edges);
        self.equivalent_nodes_sets.append(&mut equivalent_nodes_sets);
        self.logical_definition_axioms.append(&mut logical_definition_axioms);
        self.domain_range_axioms.append(&mut domain_range_axioms);
        self.property_chain_axioms.append(&mut property_chain_axioms);
    }
}

impl ExistentialRestrictionExpression {
    /// Builds a restriction from its property and filler identifiers.
    pub fn new(property_id: String, filler_id: String) -> (r: Self)
        ensures
            r@.property_id == property_id@,
            r@.filler_id == filler_id@,
    {
        Self { property_id, filler_id }
    }
}

impl BasicPropertyValue {
    /// Builds a property value from a predicate and a value, with no
    /// cross-references and no metadata.
    pub fn new(predicate: String, value: String) -> (r: Self)
        ensures
            r@.pred == predicate@,
            r@.val == value@,
            r@.xrefs == Seq::<Seq<char>>::empty(),
    {
        let r = Self { pred: predicate, val: value, xrefs: Vec::new(), meta: None };
        assert(r@.xrefs =~= Seq::<Seq<char>>::empty());
        r
    }
}

impl GraphDocument {
    /// Wraps a list of graphs as a document without document-level metadata.
    pub fn from_graphs(graphs: Vec<Graph>) -> (r: Self)
        ensures
            r@.graphs == graphs@.map_values(|x: Graph| x@),
            r@.meta is None,
    {
        Self { graphs, meta: None }
    }
}

impl GraphDocument {
    /// Wraps one graph as a single-graph document.
    pub fn single(graph: Graph) -> (r: Self)
        ensures
            r@.graphs == seq![graph@],
            r@.meta is None,
    {
        let mut graphs = Vec::new();
        graphs.push(graph);
        let r = Self { graphs, meta: None };
        assert(r@.graphs =~= seq![graph@]);
        r
    }
}

} // verus!
