//! Document to graph: maps each entity frame to a {node, edge-list,
//! axiom-fragment} bundle and folds the fragments into one graph, with the
//! header mapped to the graph's metadata.
//!
//! The per-clause dispatch follows the fixed tables of the conversion:
//! identity and structural clauses become edges, informational clauses
//! populate the node's metadata under fixed predicate URIs, and the
//! remaining structural clauses are intentionally dropped.

use vstd::prelude::*;
use vstd::string::*;

use crate::ast::{
    xrefs_view, EntityFrame, EntityFrameView, HeaderClause, HeaderClauseView, HeaderFrame,
    HeaderFrameView, OboDoc, OboDocView, InstanceClause, InstanceClauseView, InstanceFrame, InstanceFrameView,
    PropertyValue, PropertyValueView, Synonym, SynonymView, TermClause, TermClauseView, TermFrame,
    TermFrameView, TypedefClause, TypedefClauseView, TypedefFrame, TypedefFrameView, Xref,
    XrefView,
};
use crate::constants::{
    antisymmetric_property, antisymmetric_property_str, bool_text, bool_text_str, consider,
    consider_str, created_by, created_by_str, creation_date, creation_date_str, disjoint_over,
    disjoint_over_str, has_alternative_id, has_alternative_id_str, has_obo_namespace,
    has_obo_namespace_str, is_a_pred, is_a_pred_str, is_class_level, is_class_level_str,
    is_cyclic, is_cyclic_str, is_metadata_tag, is_metadata_tag_str, replaced_by, replaced_by_str,
    scope_pred, scope_pred_str, auto_generated_by, auto_generated_by_str, has_date, has_date_str,
    has_default_namespace, has_default_namespace_str, has_obo_format_version,
    has_obo_format_version_str, namespace_id_rule, namespace_id_rule_str, saved_by, saved_by_str,
};
use crate::context::{ctx_of_header, spec_expand, Context, ContextView};
use crate::error::Error;
use crate::model::{
    opt_str_view, strs_view, BasicPropertyValue, GraphDocument, GraphDocumentView, BasicPvView, DefinitionPropertyValue,
    DefinitionPvView, DomainRangeAxiom, DomainRangeAxiomView, Edge, EdgeView, Graph, GraphView,
    Meta, MetaView, Node, NodeType, NodeView, SynonymPropertyValue, SynonymPvView,
    XrefPropertyValue, XrefPvView,
};

verus! {

// ---------------------------------------------------------------------
// Spec model
// ---------------------------------------------------------------------

/// The state accumulated while walking one frame's clauses: the node's
/// label and metadata, the frame's edges, and (for typedefs) its
/// domain/range axiom.
#[verifier::ext_equal]
pub struct FragView {
    pub label: Option<Seq<char>>,
    pub meta: MetaView,
    pub edges: Seq<EdgeView>,
    pub dra: Seq<DomainRangeAxiomView>,
}

/// The state before any clause: no label, empty metadata, no edges, no
/// axiom.
pub open spec fn empty_frag() -> FragView {
    FragView {
        label: None,
        meta: Meta::empty_view(),
        edges: Seq::empty(),
        dra: Seq::empty(),
    }
}

/// A property-value pair with empty cross-references.
pub open spec fn bare_bpv(pred: Seq<char>, val: Seq<char>) -> BasicPvView {
    BasicPvView { pred, val, xrefs: Seq::empty() }
}

/// Metadata with one more generic property value.
pub open spec fn meta_push_bpv(m: MetaView, pred: Seq<char>, val: Seq<char>) -> MetaView {
    MetaView {
        basic_property_values: m.basic_property_values + seq![bare_bpv(pred, val)],
        ..m
    }
}

/// A generic annotation as a graph property value: identifiers are
/// expanded, a literal keeps its text (its datatype is dropped).
pub open spec fn spec_pv_basic(ctx: ContextView, pv: PropertyValueView) -> BasicPvView {
    match pv {
        PropertyValueView::Resource { prop, target } => bare_bpv(
            spec_expand(ctx, prop),
            spec_expand(ctx, target),
        ),
        PropertyValueView::Literal { prop, val, ty: _ } => bare_bpv(spec_expand(ctx, prop), val),
    }
}

/// The expanded identifiers of a cross-reference list (descriptions are
/// dropped).
pub open spec fn spec_xref_ids(ctx: ContextView, xs: Seq<XrefView>) -> Seq<Seq<char>> {
    xs.map_values(|x: XrefView| spec_expand(ctx, x.id))
}

/// A synonym as a graph property value: the scope becomes one of the four
/// scope keywords.
pub open spec fn spec_synonym_pv(ctx: ContextView, syn: SynonymView) -> SynonymPvView {
    SynonymPvView { pred: scope_pred(syn.scope), val: syn.text, xrefs: spec_xref_ids(ctx, syn.xrefs) }
}

/// A definition as a graph property value.
pub open spec fn spec_def_pv(ctx: ContextView, text: Seq<char>, xs: Seq<XrefView>) -> DefinitionPvView {
    DefinitionPvView { pred: None, val: text, xrefs: spec_xref_ids(ctx, xs) }
}

/// A cross-reference as a graph property value: its identifier is
/// expanded and its description becomes the label.
pub open spec fn spec_xref_pv(ctx: ContextView, x: XrefView) -> XrefPvView {
    XrefPvView {
        pred: None,
        val: spec_expand(ctx, x.id),
        xrefs: Seq::empty(),
        label: x.description,
    }
}

/// An edge from the current entity.
pub open spec fn edge_from(cur: Seq<char>, pred: Seq<char>, obj: Seq<char>) -> EdgeView {
    EdgeView { sub: cur, pred, obj, meta: None }
}

/// One term clause's effect on the fragment state.
pub open spec fn term_step(
    ctx: ContextView,
    cur: Seq<char>,
    a: FragView,
    c: TermClauseView,
) -> FragView {
    match c {
        TermClauseView::Name { name } => FragView { label: Some(name), ..a },
        TermClauseView::Namespace { id } => FragView {
            meta: meta_push_bpv(a.meta, has_obo_namespace(), crate::ident::render_view(id)),
            ..a
        },
        TermClauseView::AltId { id } => FragView {
            meta: meta_push_bpv(a.meta, has_alternative_id(), crate::ident::render_view(id)),
            ..a
        },
        TermClauseView::Def { text, xrefs } => FragView {
            meta: MetaView { definition: Some(spec_def_pv(ctx, text, xrefs)), ..a.meta },
            ..a
        },
        TermClauseView::Comment { text } => FragView {
            meta: MetaView { comments: a.meta.comments + seq![text], ..a.meta },
            ..a
        },
        TermClauseView::Subset { id } => FragView {
            meta: MetaView {
                subsets: a.meta.subsets + seq![crate::ident::render_view(id)],
                ..a.meta
            },
            ..a
        },
        TermClauseView::Synonym { syn } => FragView {
            meta: MetaView {
                synonyms: a.meta.synonyms + seq![spec_synonym_pv(ctx, syn)],
                ..a.meta
            },
            ..a
        },
        TermClauseView::Xref { xref } => FragView {
            meta: MetaView { xrefs: a.meta.xrefs + seq![spec_xref_pv(ctx, xref)], ..a.meta },
            ..a
        },
        TermClauseView::PropertyValue { pv } => FragView {
            meta: MetaView {
                basic_property_values: a.meta.basic_property_values + seq![spec_pv_basic(ctx, pv)],
                ..a.meta
            },
            ..a
        },
        TermClauseView::IsA { id } => FragView {
            edges: a.edges + seq![edge_from(cur, is_a_pred(), spec_expand(ctx, id))],
            ..a
        },
        TermClauseView::Relationship { rel, id } => FragView {
            edges: a.edges + seq![
                edge_from(cur, spec_expand(ctx, rel), spec_expand(ctx, id)),
            ],
            ..a
        },
        TermClauseView::CreatedBy { name } => FragView {
            meta: meta_push_bpv(a.meta, created_by(), name),
            ..a
        },
        TermClauseView::CreationDate { date } => FragView {
            meta: meta_push_bpv(a.meta, creation_date(), date),
            ..a
        },
        TermClauseView::IsObsolete { b } => FragView {
            meta: MetaView { deprecated: b, ..a.meta },
            ..a
        },
        TermClauseView::ReplacedBy { id } => FragView {
            meta: meta_push_bpv(a.meta, replaced_by(), spec_expand(ctx, id)),
            ..a
        },
        TermClauseView::Consider { id } => FragView {
            meta: meta_push_bpv(a.meta, consider(), spec_expand(ctx, id)),
            ..a
        },
        // anonymous, builtin and the logical-structure clauses are
        // intentionally dropped
        _ => a,
    }
}

/// The fragment state after the first `i` clauses of a term frame.
pub open spec fn term_frag_partial(
    ctx: ContextView,
    cur: Seq<char>,
    cls: Seq<TermClauseView>,
    i: int,
) -> FragView {
    cls.take(i).fold_left(empty_frag(), |a: FragView, c: TermClauseView| term_step(ctx, cur, a, c))
}

/// The fragment state a term frame's clauses produce.
pub open spec fn term_frag(ctx: ContextView, cur: Seq<char>, f: TermFrameView) -> FragView {
    term_frag_partial(ctx, cur, f.clauses, f.clauses.len() as int)
}

/// A one-node graph fragment around a fragment state.
pub open spec fn frag_graph(cur: Seq<char>, ty: NodeType, a: FragView) -> GraphView {
    GraphView {
        nodes: seq![NodeView { id: cur, meta: Some(a.meta), ty: Some(ty), label: a.label }],
        edges: a.edges,
        id: cur,
        label: None,
        meta: Meta::empty_view(),
        equivalent_nodes_sets: Seq::empty(),
        logical_definition_axioms: Seq::empty(),
        domain_range_axioms: a.dra,
        property_chain_axioms: Seq::empty(),
    }
}

/// The graph fragment of one term frame: one Class node carrying the
/// frame's metadata, plus its edges.
pub open spec fn spec_term_fragment(ctx: ContextView, f: TermFrameView) -> GraphView {
    frag_graph(spec_expand(ctx, f.id), NodeType::Class, term_frag(ctx, spec_expand(ctx, f.id), f))
}

// ---------------------------------------------------------------------
// Executable helpers
// ---------------------------------------------------------------------

/// Expands the identifiers of a cross-reference list.
fn expand_xref_ids(ctx: &Context, xs: &Vec<Xref>) -> (r: Vec<String>)
    requires
        ctx@.wf(),
    ensures
        strs_view(&r) == spec_xref_ids(ctx@, xrefs_view(xs)),
{
    let mut out: Vec<String> = Vec::new();
    let n = xs.len();
    for i in 0..n
        invariant
            ctx@.wf(),
            n == xs.len(),
            strs_view(&out) == spec_xref_ids(ctx@, xrefs_view(xs).take(i as int)),
    {
        out.push(ctx.expand(&xs[i].id));
        proof {
            assert(xrefs_view(xs).take(i + 1).drop_last() =~= xrefs_view(xs).take(i as int));
            assert(xrefs_view(xs).take(i + 1).last() == xrefs_view(xs)[i as int]);
            assert(strs_view(&out) =~= spec_xref_ids(ctx@, xrefs_view(xs).take(i as int)) + seq![
                spec_expand(ctx@, xs[i as int]@.id),
            ]);
            assert(spec_xref_ids(ctx@, xrefs_view(xs).take(i + 1)) =~= spec_xref_ids(
                ctx@,
                xrefs_view(xs).take(i as int),
            ) + seq![spec_expand(ctx@, xrefs_view(xs)[i as int].id)]);
        }
    }
    proof {
        assert(xrefs_view(xs).take(n as int) =~= xrefs_view(xs));
    }
    out
}

/// A generic annotation as a graph property value.
fn pv_basic(ctx: &Context, pv: &PropertyValue) -> (r: BasicPropertyValue)
    requires
        ctx@.wf(),
    ensures
        r@ == spec_pv_basic(ctx@, pv@),
{
    match pv {
        PropertyValue::Resource(prop, target) => BasicPropertyValue::new(
            ctx.expand(prop),
            ctx.expand(target),
        ),
        PropertyValue::Literal(prop, val, _ty) => BasicPropertyValue::new(
            ctx.expand(prop),
            val.clone(),
        ),
    }
}

/// A synonym as a graph property value.
fn synonym_pv(ctx: &Context, s: &Synonym) -> (r: SynonymPropertyValue)
    requires
        ctx@.wf(),
    ensures
        r@ == spec_synonym_pv(ctx@, s@),
{
    let r = SynonymPropertyValue {
        pred: scope_pred_str(s.scope).to_owned(),
        val: s.text.clone(),
        xrefs: expand_xref_ids(ctx, &s.xrefs),
        meta: None,
    };
    assert(r@ =~= spec_synonym_pv(ctx@, s@));
    r
}

/// A cross-reference as a graph property value.
fn xref_pv(ctx: &Context, x: &Xref) -> (r: XrefPropertyValue)
    requires
        ctx@.wf(),
    ensures
        r@ == spec_xref_pv(ctx@, x@),
{
    let r = XrefPropertyValue {
        pred: None,
        val: ctx.expand(&x.id),
        xrefs: Vec::new(),
        meta: None,
        label: match &x.description {
            Some(d) => Some(d.clone()),
            None => None,
        },
    };
    assert(r@ =~= spec_xref_pv(ctx@, x@));
    r
}

/// A definition as a graph property value.
fn def_pv(ctx: &Context, text: &String, xs: &Vec<Xref>) -> (r: DefinitionPropertyValue)
    requires
        ctx@.wf(),
    ensures
        r@ == spec_def_pv(ctx@, text@, xrefs_view(xs)),
{
    let r = DefinitionPropertyValue {
        pred: None,
        val: text.clone(),
        xrefs: expand_xref_ids(ctx, xs),
        meta: None,
    };
    assert(r@ =~= spec_def_pv(ctx@, text@, xrefs_view(xs)));
    r
}

/// The view of the fragment state held in the four local values.
pub open spec fn frag_of(
    label: &Option<String>,
    meta: &Meta,
    edges: &Vec<Edge>,
    dra: &Vec<DomainRangeAxiom>,
) -> FragView {
    FragView {
        label: opt_str_view(label),
        meta: meta@,
        edges: edges@.map_values(|e: Edge| e@),
        dra: dra@.map_values(|d: DomainRangeAxiom| d@),
    }
}

/// Builds the one-node graph fragment around the accumulated state.
fn build_frag_graph(cur: String, ty: NodeType, label: Option<String>, meta: Meta, edges: Vec<Edge>, dra: Vec<DomainRangeAxiom>) -> (r: Graph)
    ensures
        r@ == frag_graph(cur@, ty, frag_of(&label, &meta, &edges, &dra)),
{
    let node = Node { id: cur.clone(), meta: Some(Box::new(meta)), ty: Some(ty), label };
    let mut nodes: Vec<Node> = Vec::new();
    nodes.push(node);
    let r = Graph {
        nodes,
        edges,
        id: cur,
        label: None,
        meta: Box::new(Meta::empty()),
        equivalent_nodes_sets: Vec::new(),
        logical_definition_axioms: Vec::new(),
        domain_range_axioms: dra,
        property_chain_axioms: Vec::new(),
    };
    assert(r@ =~~= frag_graph(
        r.id@,
        ty,
        FragView {
            label: r@.nodes[0].label,
            meta: r@.nodes[0].meta.unwrap(),
            edges: r@.edges,
            dra: r@.domain_range_axioms,
        },
    ));
    r
}

impl TermFrame {
    /// Maps one term frame to its graph fragment: one Class node whose
    /// identifier is the frame identifier expanded, its label from the
    /// Name clause, its metadata from the informational clauses, and one
    /// edge per IsA or Relationship clause.
    pub fn into_graph_ctx(&self, ctx: &Context) -> (r: Graph)
        requires
            ctx@.wf(),
        ensures
            r@ == spec_term_fragment(ctx@, self@),
    {
        let cur: String = ctx.expand(&self.id);
        let mut label: Option<String> = None;
        let mut meta = Meta::empty();
        let mut edges: Vec<Edge> = Vec::new();
        let dra: Vec<DomainRangeAxiom> = Vec::new();
        let ghost cls = self@.clauses;
        proof {
            assert(frag_of(&label, &meta, &edges, &dra) =~= empty_frag());
            assert(cls.take(0) =~= Seq::<TermClauseView>::empty());
        }
        let n = self.clauses.len();
        for i in 0..n
            invariant
                ctx@.wf(),
                n == self.clauses.len(),
                cls == self@.clauses,
                cur@ == spec_expand(ctx@, self@.id),
                dra@.len() == 0,
                frag_of(&label, &meta, &edges, &dra) == term_frag_partial(ctx@, cur@, cls, i as int),
        {
            let ghost pre = frag_of(&label, &meta, &edges, &dra);
            proof {
                assert(cls.take(i + 1).drop_last() =~= cls.take(i as int));
                assert(cls.take(i + 1).last() == cls[i as int]);
                assert(cls[i as int] == self.clauses[i as int]@);
            }
            match &self.clauses[i] {
                TermClause::Name(name) => {
                    label = Some(name.clone());
                },
                TermClause::Namespace(id) => {
                    let v = id.render();
                    meta.basic_property_values.push(
                        BasicPropertyValue::new(has_obo_namespace_str().to_owned(), v),
                    );
                },
                TermClause::AltId(id) => {
                    let v = id.render();
                    meta.basic_property_values.push(
                        BasicPropertyValue::new(has_alternative_id_str().to_owned(), v),
                    );
                },
                TermClause::Def(text, xrefs) => {
                    meta.definition = Some(Box::new(def_pv(ctx, text, xrefs)));
                },
                TermClause::Comment(text) => {
                    meta.comments.push(text.clone());
                },
                TermClause::Subset(id) => {
                    meta.subsets.push(id.render());
                },
                TermClause::Synonym(syn) => {
                    meta.synonyms.push(synonym_pv(ctx, syn));
                },
                TermClause::Xref(x) => {
                    meta.xrefs.push(xref_pv(ctx, x));
                },
                TermClause::PropertyValue(pv) => {
                    meta.basic_property_values.push(pv_basic(ctx, pv));
                },
                TermClause::IsA(id) => {
                    edges.push(
                        Edge {
                            sub: cur.clone(),
                            pred: is_a_pred_str().to_owned(),
                            obj: ctx.expand(id),
                            meta: None,
                        },
                    );
                },
                TermClause::Relationship(rel, id) => {
                    edges.push(
                        Edge {
                            sub: cur.clone(),
                            pred: ctx.expand(rel),
                            obj: ctx.expand(id),
                            meta: None,
                        },
                    );
                },
                TermClause::CreatedBy(name) => {
                    meta.basic_property_values.push(
                        BasicPropertyValue::new(created_by_str().to_owned(), name.clone()),
                    );
                },
                TermClause::CreationDate(date) => {
                    meta.basic_property_values.push(
                        BasicPropertyValue::new(creation_date_str().to_owned(), date.clone()),
                    );
                },
                TermClause::IsObsolete(b) => {
                    meta.deprecated = *b;
                },
                TermClause::ReplacedBy(id) => {
                    let v = ctx.expand(id);
                    meta.basic_property_values.push(
                        BasicPropertyValue::new(replaced_by_str().to_owned(), v),
                    );
                },
                TermClause::Consider(id) => {
                    let v = ctx.expand(id);
                    meta.basic_property_values.push(
                        BasicPropertyValue::new(consider_str().to_owned(), v),
                    );
                },
                _ => (),
            }
            proof {
                assert(frag_of(&label, &meta, &edges, &dra) =~~= term_step(
                    ctx@,
                    cur@,
                    pre,
                    cls[i as int],
                ));
            }
        }
        proof {
            assert(cls.take(n as int) =~= cls);
        }
        build_frag_graph(cur, NodeType::Class, label, meta, edges, dra)
    }
}


// ---------------------------------------------------------------------
// Typedef frames
// ---------------------------------------------------------------------

/// A fresh domain/range axiom for the current typedef.
pub open spec fn new_dra(cur: Seq<char>) -> DomainRangeAxiomView {
    DomainRangeAxiomView {
        meta: None,
        predicate_id: cur,
        domain_class_ids: Seq::empty(),
        range_class_ids: Seq::empty(),
        all_values_from_edges: Seq::empty(),
    }
}

/// The frame's single domain/range axiom with one more domain class,
/// created lazily on the first occurrence.
pub open spec fn dra_add_domain(
    cur: Seq<char>,
    dra: Seq<DomainRangeAxiomView>,
    v: Seq<char>,
) -> Seq<DomainRangeAxiomView> {
    if dra.len() == 0 {
        seq![
            DomainRangeAxiomView { domain_class_ids: seq![v], ..new_dra(cur) },
        ]
    } else {
        dra.update(
            0,
            DomainRangeAxiomView { domain_class_ids: dra[0].domain_class_ids + seq![v], ..dra[0] },
        )
    }
}

/// The frame's single domain/range axiom with one more range class,
/// created lazily on the first occurrence.
pub open spec fn dra_add_range(
    cur: Seq<char>,
    dra: Seq<DomainRangeAxiomView>,
    v: Seq<char>,
) -> Seq<DomainRangeAxiomView> {
    if dra.len() == 0 {
        seq![
            DomainRangeAxiomView { range_class_ids: seq![v], ..new_dra(cur) },
        ]
    } else {
        dra.update(
            0,
            DomainRangeAxiomView { range_class_ids: dra[0].range_class_ids + seq![v], ..dra[0] },
        )
    }
}

/// One typedef clause's effect on the fragment state.
pub open spec fn typedef_step(
    ctx: ContextView,
    cur: Seq<char>,
    a: FragView,
    c: TypedefClauseView,
) -> FragView {
    match c {
        TypedefClauseView::Name { name } => FragView { label: Some(name), ..a },
        TypedefClauseView::Namespace { id } => FragView {
            meta: meta_push_bpv(a.meta, has_obo_namespace(), crate::ident::render_view(id)),
            ..a
        },
        TypedefClauseView::AltId { id } => FragView {
            meta: meta_push_bpv(a.meta, has_alternative_id(), crate::ident::render_view(id)),
            ..a
        },
        TypedefClauseView::Def { text, xrefs } => FragView {
            meta: MetaView { definition: Some(spec_def_pv(ctx, text, xrefs)), ..a.meta },
            ..a
        },
        TypedefClauseView::Comment { text } => FragView {
            meta: MetaView { comments: a.meta.comments + seq![text], ..a.meta },
            ..a
        },
        TypedefClauseView::Subset { id } => FragView {
            meta: MetaView {
                subsets: a.meta.subsets + seq![crate::ident::render_view(id)],
                ..a.meta
            },
            ..a
        },
        TypedefClauseView::Synonym { syn } => FragView {
            meta: MetaView {
                synonyms: a.meta.synonyms + seq![spec_synonym_pv(ctx, syn)],
                ..a.meta
            },
            ..a
        },
        TypedefClauseView::Xref { xref } => FragView {
            meta: MetaView { xrefs: a.meta.xrefs + seq![spec_xref_pv(ctx, xref)], ..a.meta },
            ..a
        },
        TypedefClauseView::PropertyValue { pv } => FragView {
            meta: MetaView {
                basic_property_values: a.meta.basic_property_values + seq![spec_pv_basic(ctx, pv)],
                ..a.meta
            },
            ..a
        },
        TypedefClauseView::Domain { id } => FragView {
            dra: dra_add_domain(cur, a.dra, spec_expand(ctx, id)),
            ..a
        },
        TypedefClauseView::Range { id } => FragView {
            dra: dra_add_range(cur, a.dra, spec_expand(ctx, id)),
            ..a
        },
        TypedefClauseView::IsA { id } => FragView {
            edges: a.edges + seq![edge_from(cur, is_a_pred(), spec_expand(ctx, id))],
            ..a
        },
        TypedefClauseView::Relationship { rel, id } => FragView {
            edges: a.edges + seq![
                edge_from(cur, spec_expand(ctx, rel), spec_expand(ctx, id)),
            ],
            ..a
        },
        TypedefClauseView::IsCyclic { b } => FragView {
            meta: meta_push_bpv(a.meta, is_cyclic(), bool_text(b)),
            ..a
        },
        TypedefClauseView::IsAntiSymmetric { b } => FragView {
            meta: meta_push_bpv(a.meta, antisymmetric_property(), bool_text(b)),
            ..a
        },
        TypedefClauseView::IsMetadataTag { b } => FragView {
            meta: meta_push_bpv(a.meta, is_metadata_tag(), bool_text(b)),
            ..a
        },
        TypedefClauseView::IsClassLevel { b } => FragView {
            meta: meta_push_bpv(a.meta, is_class_level(), bool_text(b)),
            ..a
        },
        TypedefClauseView::DisjointOver { id } => FragView {
            meta: meta_push_bpv(a.meta, disjoint_over(), spec_expand(ctx, id)),
            ..a
        },
        TypedefClauseView::CreatedBy { name } => FragView {
            meta: meta_push_bpv(a.meta, created_by(), name),
            ..a
        },
        TypedefClauseView::CreationDate { date } => FragView {
            meta: meta_push_bpv(a.meta, creation_date(), date),
            ..a
        },
        TypedefClauseView::IsObsolete { b } => FragView {
            meta: MetaView { deprecated: b, ..a.meta },
            ..a
        },
        TypedefClauseView::ReplacedBy { id } => FragView {
            meta: meta_push_bpv(a.meta, replaced_by(), spec_expand(ctx, id)),
            ..a
        },
        TypedefClauseView::Consider { id } => FragView {
            meta: meta_push_bpv(a.meta, consider(), spec_expand(ctx, id)),
            ..a
        },
        // the relational-algebra and logical-structure clauses are
        // intentionally dropped
        _ => a,
    }
}

/// The fragment state after the first `i` clauses of a typedef frame.
pub open spec fn typedef_frag_partial(
    ctx: ContextView,
    cur: Seq<char>,
    cls: Seq<TypedefClauseView>,
    i: int,
) -> FragView {
    cls.take(i).fold_left(
        empty_frag(),
        |a: FragView, c: TypedefClauseView| typedef_step(ctx, cur, a, c),
    )
}

/// The graph fragment of one typedef frame: one Property node carrying
/// the frame's metadata, its edges, and at most one domain/range axiom.
pub open spec fn spec_typedef_fragment(ctx: ContextView, f: TypedefFrameView) -> GraphView {
    frag_graph(
        spec_expand(ctx, f.id),
        NodeType::Property,
        typedef_frag_partial(ctx, spec_expand(ctx, f.id), f.clauses, f.clauses.len() as int),
    )
}

/// The view of an optional domain/range axiom as the axiom sequence it
/// stands for.
pub open spec fn dra_opt_view(dra: &Option<DomainRangeAxiom>) -> Seq<DomainRangeAxiomView> {
    match dra {
        Some(ax) => seq![ax@],
        None => Seq::empty(),
    }
}

impl TypedefFrame {
    /// Maps one typedef frame to its graph fragment: one Property node,
    /// its edges, and one domain/range axiom accumulated from all Domain
    /// and Range clauses (created lazily on the first occurrence).
    #[verifier::rlimit(80)]
    pub fn into_graph_ctx(&self, ctx: &Context) -> (r: Graph)
        requires
            ctx@.wf(),
        ensures
            r@ == spec_typedef_fragment(ctx@, self@),
    {
        let cur: String = ctx.expand(&self.id);
        let mut label: Option<String> = None;
        let mut meta = Meta::empty();
        let mut edges: Vec<Edge> = Vec::new();
        let mut dra_opt: Option<DomainRangeAxiom> = None;
        let ghost cls = self@.clauses;
        proof {
            assert((FragView {
                label: opt_str_view(&label),
                meta: meta@,
                edges: edges@.map_values(|e: Edge| e@),
                dra: dra_opt_view(&dra_opt),
            }) =~= empty_frag());
            assert(cls.take(0) =~= Seq::<TypedefClauseView>::empty());
        }
        let n = self.clauses.len();
        for i in 0..n
            invariant
                ctx@.wf(),
                n == self.clauses.len(),
                cls == self@.clauses,
                cur@ == spec_expand(ctx@, self@.id),
                (FragView {
                    label: opt_str_view(&label),
                    meta: meta@,
                    edges: edges@.map_values(|e: Edge| e@),
                    dra: dra_opt_view(&dra_opt),
                }) == typedef_frag_partial(ctx@, cur@, cls, i as int),
        {
            let ghost pre = FragView {
                label: opt_str_view(&label),
                meta: meta@,
                edges: edges@.map_values(|e: Edge| e@),
                dra: dra_opt_view(&dra_opt),
            };
            proof {
                assert(cls.take(i + 1).drop_last() =~= cls.take(i as int));
                assert(cls.take(i + 1).last() == cls[i as int]);
                assert(cls[i as int] == self.clauses[i as int]@);
            }
            match &self.clauses[i] {
                TypedefClause::Name(name) => {
                    label = Some(name.clone());
                },
                TypedefClause::Namespace(id) => {
                    let v = id.render();
                    meta.basic_property_values.push(
                        BasicPropertyValue::new(has_obo_namespace_str().to_owned(), v),
                    );
                },
                TypedefClause::AltId(id) => {
                    let v = id.render();
                    meta.basic_property_values.push(
                        BasicPropertyValue::new(has_alternative_id_str().to_owned(), v),
                    );
                },
                TypedefClause::Def(text, xrefs) => {
                    meta.definition = Some(Box::new(def_pv(ctx, text, xrefs)));
                },
                TypedefClause::Comment(text) => {
                    meta.comments.push(text.clone());
                },
                TypedefClause::Subset(id) => {
                    meta.subsets.push(id.render());
                },
                TypedefClause::Synonym(syn) => {
                    meta.synonyms.push(synonym_pv(ctx, syn));
                },
                TypedefClause::Xref(x) => {
                    meta.xrefs.push(xref_pv(ctx, x));
                },
                TypedefClause::PropertyValue(pv) => {
                    meta.basic_property_values.push(pv_basic(ctx, pv));
                },
                TypedefClause::Domain(id) => {
                    let v = ctx.expand(id);
                    match &mut dra_opt {
                        Some(ax) => {
                            ax.domain_class_ids.push(v);
                        },
                        None => {
                            dra_opt = Some(
                                DomainRangeAxiom {
                                    meta: None,
                                    predicate_id: cur.clone(),
                                    domain_class_ids: {
                                        let mut d: Vec<String> = Vec::new();
                                        d.push(v);
                                        d
                                    },
                                    range_class_ids: Vec::new(),
                                    all_values_from_edges: Vec::new(),
                                },
                            );
                        },
                    }
                },
                TypedefClause::Range(id) => {
                    let v = ctx.expand(id);
                    match &mut dra_opt {
                        Some(ax) => {
                            ax.range_class_ids.push(v);
                        },
                        None => {
                            dra_opt = Some(
                                DomainRangeAxiom {
                                    meta: None,
                                    predicate_id: cur.clone(),
                                    domain_class_ids: Vec::new(),
                                    range_class_ids: {
                                        let mut d: Vec<String> = Vec::new();
                                        d.push(v);
                                        d
                                    },
                                    all_values_from_edges: Vec::new(),
                                },
                            );
                        },
                    }
                },
                TypedefClause::IsA(id) => {
                    edges.push(
                        Edge {
                            sub: cur.clone(),
                            pred: is_a_pred_str().to_owned(),
                            obj: ctx.expand(id),
                            meta: None,
                        },
                    );
                },
                TypedefClause::Relationship(rel, id) => {
                    edges.push(
                        Edge {
                            sub: cur.clone(),
                            pred: ctx.expand(rel),
                            obj: ctx.expand(id),
                            meta: None,
                        },
                    );
                },
                TypedefClause::IsCyclic(b) => {
                    meta.basic_property_values.push(
                        BasicPropertyValue::new(
                            is_cyclic_str().to_owned(),
                            bool_text_str(*b).to_owned(),
                        ),
                    );
                },
                TypedefClause::IsAntiSymmetric(b) => {
                    meta.basic_property_values.push(
                        BasicPropertyValue::new(
                            antisymmetric_property_str().to_owned(),
                            bool_text_str(*b).to_owned(),
                        ),
                    );
                },
                TypedefClause::IsMetadataTag(b) => {
                    meta.basic_property_values.push(
                        BasicPropertyValue::new(
                            is_metadata_tag_str().to_owned(),
                            bool_text_str(*b).to_owned(),
                        ),
                    );
                },
                TypedefClause::IsClassLevel(b) => {
                    meta.basic_property_values.push(
                        BasicPropertyValue::new(
                            is_class_level_str().to_owned(),
                            bool_text_str(*b).to_owned(),
                        ),
                    );
                },
                TypedefClause::DisjointOver(id) => {
                    let v = ctx.expand(id);
                    meta.basic_property_values.push(
                        BasicPropertyValue::new(disjoint_over_str().to_owned(), v),
                    );
                },
                TypedefClause::CreatedBy(name) => {
                    meta.basic_property_values.push(
                        BasicPropertyValue::new(created_by_str().to_owned(), name.clone()),
                    );
                },
                TypedefClause::CreationDate(date) => {
                    meta.basic_property_values.push(
                        BasicPropertyValue::new(creation_date_str().to_owned(), date.clone()),
                    );
                },
                TypedefClause::IsObsolete(b) => {
                    meta.deprecated = *b;
                },
                TypedefClause::ReplacedBy(id) => {
                    let v = ctx.expand(id);
                    meta.basic_property_values.push(
                        BasicPropertyValue::new(replaced_by_str().to_owned(), v),
                    );
                },
                TypedefClause::Consider(id) => {
                    let v = ctx.expand(id);
                    meta.basic_property_values.push(
                        BasicPropertyValue::new(consider_str().to_owned(), v),
                    );
                },
                _ => (),
            }
            proof {
                assert((FragView {
                    label: opt_str_view(&label),
                    meta: meta@,
                    edges: edges@.map_values(|e: Edge| e@),
                    dra: dra_opt_view(&dra_opt),
                }) =~~= typedef_step(ctx@, cur@, pre, cls[i as int]));
            }
        }
        proof {
            assert(cls.take(n as int) =~= cls);
        }
        let dra: Vec<DomainRangeAxiom> = match dra_opt {
            Some(ax) => {
                let mut d: Vec<DomainRangeAxiom> = Vec::new();
                d.push(ax);
                d
            },
            None => Vec::new(),
        };
        proof {
            assert(dra@.map_values(|d: DomainRangeAxiom| d@) =~= typedef_frag_partial(
                ctx@,
                cur@,
                cls,
                n as int,
            ).dra);
        }
        build_frag_graph(cur, NodeType::Property, label, meta, edges, dra)
    }
}

// ---------------------------------------------------------------------
// Instance frames
// ---------------------------------------------------------------------

/// One instance clause's effect on the fragment state. The instance-of
/// clause has no graph counterpart here and is dropped.
pub open spec fn instance_step(
    ctx: ContextView,
    cur: Seq<char>,
    a: FragView,
    c: InstanceClauseView,
) -> FragView {
    match c {
        InstanceClauseView::Name { name } => FragView { label: Some(name), ..a },
        InstanceClauseView::Namespace { id } => FragView {
            meta: meta_push_bpv(a.meta, has_obo_namespace(), crate::ident::render_view(id)),
            ..a
        },
        InstanceClauseView::AltId { id } => FragView {
            meta: meta_push_bpv(a.meta, has_alternative_id(), crate::ident::render_view(id)),
            ..a
        },
        InstanceClauseView::Def { text, xrefs } => FragView {
            meta: MetaView { definition: Some(spec_def_pv(ctx, text, xrefs)), ..a.meta },
            ..a
        },
        InstanceClauseView::Comment { text } => FragView {
            meta: MetaView { comments: a.meta.comments + seq![text], ..a.meta },
            ..a
        },
        InstanceClauseView::Subset { id } => FragView {
            meta: MetaView {
                subsets: a.meta.subsets + seq![crate::ident::render_view(id)],
                ..a.meta
            },
            ..a
        },
        InstanceClauseView::Synonym { syn } => FragView {
            meta: MetaView {
                synonyms: a.meta.synonyms + seq![spec_synonym_pv(ctx, syn)],
                ..a.meta
            },
            ..a
        },
        InstanceClauseView::Xref { xref } => FragView {
            meta: MetaView { xrefs: a.meta.xrefs + seq![spec_xref_pv(ctx, xref)], ..a.meta },
            ..a
        },
        InstanceClauseView::PropertyValue { pv } => FragView {
            meta: MetaView {
                basic_property_values: a.meta.basic_property_values + seq![spec_pv_basic(ctx, pv)],
                ..a.meta
            },
            ..a
        },
        InstanceClauseView::Relationship { rel, id } => FragView {
            edges: a.edges + seq![
                edge_from(cur, spec_expand(ctx, rel), spec_expand(ctx, id)),
            ],
            ..a
        },
        InstanceClauseView::CreatedBy { name } => FragView {
            meta: meta_push_bpv(a.meta, created_by(), name),
            ..a
        },
        InstanceClauseView::CreationDate { date } => FragView {
            meta: meta_push_bpv(a.meta, creation_date(), date),
            ..a
        },
        InstanceClauseView::IsObsolete { b } => FragView {
            meta: MetaView { deprecated: b, ..a.meta },
            ..a
        },
        InstanceClauseView::ReplacedBy { id } => FragView {
            meta: meta_push_bpv(a.meta, replaced_by(), spec_expand(ctx, id)),
            ..a
        },
        InstanceClauseView::Consider { id } => FragView {
            meta: meta_push_bpv(a.meta, consider(), spec_expand(ctx, id)),
            ..a
        },
        _ => a,
    }
}

/// The fragment state after the first `i` clauses of an instance frame.
pub open spec fn instance_frag_partial(
    ctx: ContextView,
    cur: Seq<char>,
    cls: Seq<InstanceClauseView>,
    i: int,
) -> FragView {
    cls.take(i).fold_left(
        empty_frag(),
        |a: FragView, c: InstanceClauseView| instance_step(ctx, cur, a, c),
    )
}

/// The graph fragment of one instance frame: one Individual node carrying
/// the frame's metadata, plus its relationship edges.
pub open spec fn spec_instance_fragment(ctx: ContextView, f: InstanceFrameView) -> GraphView {
    frag_graph(
        spec_expand(ctx, f.id),
        NodeType::Individual,
        instance_frag_partial(ctx, spec_expand(ctx, f.id), f.clauses, f.clauses.len() as int),
    )
}

impl InstanceFrame {
    /// Maps one instance frame to its graph fragment: one Individual node
    /// carrying the frame's metadata, plus its relationship edges.
    pub fn into_graph_ctx(&self, ctx: &Context) -> (r: Graph)
        requires
            ctx@.wf(),
        ensures
            r@ == spec_instance_fragment(ctx@, self@),
    {
        let cur: String = ctx.expand(&self.id);
        let mut label: Option<String> = None;
        let mut meta = Meta::empty();
        let mut edges: Vec<Edge> = Vec::new();
        let dra: Vec<DomainRangeAxiom> = Vec::new();
        let ghost cls = self@.clauses;
        proof {
            assert(frag_of(&label, &meta, &edges, &dra) =~= empty_frag());
            assert(cls.take(0) =~= Seq::<InstanceClauseView>::empty());
        }
        let n = self.clauses.len();
        for i in 0..n
            invariant
                ctx@.wf(),
                n == self.clauses.len(),
                cls == self@.clauses,
                cur@ == spec_expand(ctx@, self@.id),
                dra@.len() == 0,
                frag_of(&label, &meta, &edges, &dra) == instance_frag_partial(
                    ctx@,
                    cur@,
                    cls,
                    i as int,
                ),
        {
            let ghost pre = frag_of(&label, &meta, &edges, &dra);
            proof {
                assert(cls.take(i + 1).drop_last() =~= cls.take(i as int));
                assert(cls.take(i + 1).last() == cls[i as int]);
                assert(cls[i as int] == self.clauses[i as int]@);
            }
            match &self.clauses[i] {
                InstanceClause::Name(name) => {
                    label = Some(name.clone());
                },
                InstanceClause::Namespace(id) => {
                    let v = id.render();
                    meta.basic_property_values.push(
                        BasicPropertyValue::new(has_obo_namespace_str().to_owned(), v),
                    );
                },
                InstanceClause::AltId(id) => {
                    let v = id.render();
                    meta.basic_property_values.push(
                        BasicPropertyValue::new(has_alternative_id_str().to_owned(), v),
                    );
                },
                InstanceClause::Def(text, xrefs) => {
                    meta.definition = Some(Box::new(def_pv(ctx, text, xrefs)));
                },
                InstanceClause::Comment(text) => {
                    meta.comments.push(text.clone());
                },
                InstanceClause::Subset(id) => {
                    meta.subsets.push(id.render());
                },
                InstanceClause::Synonym(syn) => {
                    meta.synonyms.push(synonym_pv(ctx, syn));
                },
                InstanceClause::Xref(x) => {
                    meta.xrefs.push(xref_pv(ctx, x));
                },
                InstanceClause::PropertyValue(pv) => {
                    meta.basic_property_values.push(pv_basic(ctx, pv));
                },
                InstanceClause::Relationship(rel, id) => {
                    edges.push(
                        Edge {
                            sub: cur.clone(),
                            pred: ctx.expand(rel),
                            obj: ctx.expand(id),
                            meta: None,
                        },
                    );
                },
                InstanceClause::CreatedBy(name) => {
                    meta.basic_property_values.push(
                        BasicPropertyValue::new(created_by_str().to_owned(), name.clone()),
                    );
                },
                InstanceClause::CreationDate(date) => {
                    meta.basic_property_values.push(
                        BasicPropertyValue::new(creation_date_str().to_owned(), date.clone()),
                    );
                },
                InstanceClause::IsObsolete(b) => {
                    meta.deprecated = *b;
                },
                InstanceClause::ReplacedBy(id) => {
                    let v = ctx.expand(id);
                    meta.basic_property_values.push(
                        BasicPropertyValue::new(replaced_by_str().to_owned(), v),
                    );
                },
                InstanceClause::Consider(id) => {
                    let v = ctx.expand(id);
                    meta.basic_property_values.push(
                        BasicPropertyValue::new(consider_str().to_owned(), v),
                    );
                },
                _ => (),
            }
            proof {
                assert(frag_of(&label, &meta, &edges, &dra) =~~= instance_step(
                    ctx@,
                    cur@,
                    pre,
                    cls[i as int],
                ));
            }
        }
        proof {
            assert(cls.take(n as int) =~= cls);
        }
        build_frag_graph(cur, NodeType::Individual, label, meta, edges, dra)
    }
}


// ---------------------------------------------------------------------
// Header and document
// ---------------------------------------------------------------------

/// One header clause's effect on the graph metadata: the fixed table
/// between header-clause kinds and metadata fields or property-value
/// predicates. Idspace and ontology-name clauses feed the context instead;
/// imports, synonym typedefs, owl-axioms and unreserved clauses are
/// dropped.
pub open spec fn header_meta_step(ctx: ContextView, m: MetaView, c: HeaderClauseView) -> MetaView {
    match c {
        HeaderClauseView::FormatVersion { v } => meta_push_bpv(m, has_obo_format_version(), v),
        HeaderClauseView::DataVersion { v } => MetaView { version: Some(v), ..m },
        HeaderClauseView::Date { v } => meta_push_bpv(m, has_date(), v),
        HeaderClauseView::SavedBy { v } => meta_push_bpv(m, saved_by(), v),
        HeaderClauseView::AutoGeneratedBy { v } => meta_push_bpv(m, auto_generated_by(), v),
        HeaderClauseView::Subsetdef { id, def: _ } => MetaView {
            subsets: m.subsets + seq![crate::ident::render_view(id)],
            ..m
        },
        HeaderClauseView::DefaultNamespace { id } => meta_push_bpv(
            m,
            has_default_namespace(),
            crate::ident::render_view(id),
        ),
        HeaderClauseView::NamespaceIdRule { v } => meta_push_bpv(m, namespace_id_rule(), v),
        HeaderClauseView::PropertyValue { pv } => MetaView {
            basic_property_values: m.basic_property_values + seq![spec_pv_basic(ctx, pv)],
            ..m
        },
        HeaderClauseView::Remark { v } => MetaView { comments: m.comments + seq![v], ..m },
        _ => m,
    }
}

/// The graph metadata after the first `i` header clauses.
pub open spec fn header_meta_partial(
    ctx: ContextView,
    cls: Seq<HeaderClauseView>,
    i: int,
) -> MetaView {
    cls.take(i).fold_left(
        Meta::empty_view(),
        |m: MetaView, c: HeaderClauseView| header_meta_step(ctx, m, c),
    )
}

/// The graph metadata a whole header determines.
pub open spec fn spec_header_meta(ctx: ContextView, h: HeaderFrameView) -> MetaView {
    header_meta_partial(ctx, h.clauses, h.clauses.len() as int)
}

impl HeaderFrame {
    /// Maps the document header to the graph's metadata through the fixed
    /// header table.
    pub fn into_graph_ctx(&self, ctx: &Context) -> (r: Meta)
        requires
            ctx@.wf(),
        ensures
            r@ == spec_header_meta(ctx@, self@),
    {
        let mut meta = Meta::empty();
        let ghost cls = self@.clauses;
        proof {
            assert(cls.take(0) =~= Seq::<HeaderClauseView>::empty());
        }
        let n = self.clauses.len();
        for i in 0..n
            invariant
                ctx@.wf(),
                n == self.clauses.len(),
                cls == self@.clauses,
                meta@ == header_meta_partial(ctx@, cls, i as int),
        {
            let ghost pre = meta@;
            proof {
                assert(cls.take(i + 1).drop_last() =~= cls.take(i as int));
                assert(cls.take(i + 1).last() == cls[i as int]);
                assert(cls[i as int] == self.clauses[i as int]@);
            }
            match &self.clauses[i] {
                HeaderClause::FormatVersion(v) => {
                    meta.basic_property_values.push(
                        BasicPropertyValue::new(has_obo_format_version_str().to_owned(), v.clone()),
                    );
                },
                HeaderClause::DataVersion(v) => {
                    meta.version = Some(v.clone());
                },
                HeaderClause::Date(v) => {
                    meta.basic_property_values.push(
                        BasicPropertyValue::new(has_date_str().to_owned(), v.clone()),
                    );
                },
                HeaderClause::SavedBy(v) => {
                    meta.basic_property_values.push(
                        BasicPropertyValue::new(saved_by_str().to_owned(), v.clone()),
                    );
                },
                HeaderClause::AutoGeneratedBy(v) => {
                    meta.basic_property_values.push(
                        BasicPropertyValue::new(auto_generated_by_str().to_owned(), v.clone()),
                    );
                },
                HeaderClause::Subsetdef(id, _def) => {
                    meta.subsets.push(id.render());
                },
                HeaderClause::DefaultNamespace(id) => {
                    let v = id.render();
                    meta.basic_property_values.push(
                        BasicPropertyValue::new(has_default_namespace_str().to_owned(), v),
                    );
                },
                HeaderClause::NamespaceIdRule(v) => {
                    meta.basic_property_values.push(
                        BasicPropertyValue::new(namespace_id_rule_str().to_owned(), v.clone()),
                    );
                },
                HeaderClause::PropertyValue(pv) => {
                    meta.basic_property_values.push(pv_basic(ctx, pv));
                },
                HeaderClause::Remark(v) => {
                    meta.comments.push(v.clone());
                },
                _ => (),
            }
            proof {
                assert(meta@ =~~= header_meta_step(ctx@, pre, cls[i as int]));
            }
        }
        proof {
            assert(cls.take(n as int) =~= cls);
        }
        meta
    }
}

/// The graph fragment of any entity frame.
pub open spec fn spec_entity_fragment(ctx: ContextView, e: EntityFrameView) -> GraphView {
    match e {
        EntityFrameView::Term { frame } => spec_term_fragment(ctx, frame),
        EntityFrameView::Typedef { frame } => spec_typedef_fragment(ctx, frame),
        EntityFrameView::Instance { frame } => spec_instance_fragment(ctx, frame),
    }
}

impl EntityFrame {
    /// Maps any entity frame to its graph fragment.
    pub fn into_graph_ctx(&self, ctx: &Context) -> (r: Graph)
        requires
            ctx@.wf(),
        ensures
            r@ == spec_entity_fragment(ctx@, self@),
    {
        match self {
            EntityFrame::Term(f) => f.into_graph_ctx(ctx),
            EntityFrame::Typedef(f) => f.into_graph_ctx(ctx),
            EntityFrame::Instance(f) => f.into_graph_ctx(ctx),
        }
    }
}

/// The append-only merge of a fragment into the graph under construction.
pub open spec fn graph_join(g: GraphView, h: GraphView) -> GraphView {
    GraphView {
        nodes: g.nodes + h.nodes,
        edges: g.edges + h.edges,
        equivalent_nodes_sets: g.equivalent_nodes_sets + h.equivalent_nodes_sets,
        logical_definition_axioms: g.logical_definition_axioms + h.logical_definition_axioms,
        domain_range_axioms: g.domain_range_axioms + h.domain_range_axioms,
        property_chain_axioms: g.property_chain_axioms + h.property_chain_axioms,
        ..g
    }
}

/// The empty graph the document's header determines: its identifier is
/// the ontology URI and its metadata comes from the header table.
pub open spec fn spec_header_graph(ctx: ContextView, h: HeaderFrameView) -> GraphView {
    GraphView {
        nodes: Seq::empty(),
        edges: Seq::empty(),
        id: ctx.ontology_iri,
        label: None,
        meta: spec_header_meta(ctx, h),
        equivalent_nodes_sets: Seq::empty(),
        logical_definition_axioms: Seq::empty(),
        domain_range_axioms: Seq::empty(),
        property_chain_axioms: Seq::empty(),
    }
}

/// The graph after folding the first `i` entity fragments into the
/// header's graph.
pub open spec fn doc_graph_partial(ctx: ContextView, doc: OboDocView, i: int) -> GraphView {
    doc.entities.take(i).fold_left(
        spec_header_graph(ctx, doc.header),
        |g: GraphView, e: EntityFrameView| graph_join(g, spec_entity_fragment(ctx, e)),
    )
}

/// The single-graph document a document and a context determine.
pub open spec fn spec_into_graph_ctx(ctx: ContextView, doc: OboDocView) -> GraphDocumentView {
    GraphDocumentView {
        graphs: seq![doc_graph_partial(ctx, doc, doc.entities.len() as int)],
        meta: None,
    }
}

/// The single-graph document a document determines, under the context its
/// own header builds.
pub open spec fn spec_into_graph(doc: OboDocView) -> GraphDocumentView {
    spec_into_graph_ctx(ctx_of_header(doc.header.clauses), doc)
}

impl OboDoc {
    /// Maps a whole document to a single-graph document under a given
    /// context: the header becomes the graph's metadata, every entity
    /// frame becomes a fragment, and the fragments are folded in, in frame
    /// order, by the append-only merge. The caller preprocesses macro
    /// clauses (treat-xrefs) beforehand.
    pub fn into_graph_ctx(&self, ctx: &Context) -> (r: GraphDocument)
        requires
            ctx@.wf(),
        ensures
            r@ == spec_into_graph_ctx(ctx@, self@),
    {
        let meta = self.header.into_graph_ctx(ctx);
        let mut graph = Graph {
            nodes: Vec::new(),
            edges: Vec::new(),
            id: ctx.ontology_iri().clone(),
            label: None,
            meta: Box::new(meta),
            equivalent_nodes_sets: Vec::new(),
            logical_definition_axioms: Vec::new(),
            domain_range_axioms: Vec::new(),
            property_chain_axioms: Vec::new(),
        };
        let ghost ents = self@.entities;
        proof {
            assert(graph@ =~~= spec_header_graph(ctx@, self@.header));
            assert(ents.take(0) =~= Seq::<EntityFrameView>::empty());
        }
        let n = self.entities.len();
        for i in 0..n
            invariant
                ctx@.wf(),
                n == self.entities.len(),
                ents == self@.entities,
                graph@ == doc_graph_partial(ctx@, self@, i as int),
        {
            let ghost pre = graph@;
            proof {
                assert(ents.take(i + 1).drop_last() =~= ents.take(i as int));
                assert(ents.take(i + 1).last() == ents[i as int]);
                assert(ents[i as int] == self.entities[i as int]@);
            }
            let fragment = self.entities[i].into_graph_ctx(ctx);
            graph.extend(fragment);
            proof {
                assert(graph@ =~~= graph_join(pre, spec_entity_fragment(ctx@, ents[i as int])));
            }
        }
        proof {
            assert(ents.take(n as int) =~= ents);
        }
        GraphDocument::single(graph)
    }
}

/// Trait to convert an OBO document into a complete OBO graph document.
pub trait IntoGraph: Sized {
    /// The graph document the conversion must produce.
    spec fn graph_spec(&self) -> GraphDocumentView;

    /// Consumes the document and produces its graph document.
    fn into_graph(self) -> (r: Result<GraphDocument, Error>)
        ensures
            r matches Ok(gd) && gd@ == self.graph_spec(),
    ;
}

impl IntoGraph for OboDoc {
    /// The single-graph document the document determines, under the
    /// context its own header builds.
    open spec fn graph_spec(&self) -> GraphDocumentView {
        spec_into_graph(self@)
    }

    /// Builds the context from the document's own header and maps the
    /// document under it. This direction has no error path: expansion is
    /// total over well-formed identifiers.
    fn into_graph(self) -> (r: Result<GraphDocument, Error>) {
        let ctx = Context::from_header(&self.header);
        Ok(self.into_graph_ctx(&ctx))
    }
}

} // verus!
