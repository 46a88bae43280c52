//! The flat OBO document model: a header frame of global clauses followed
//! by entity frames (terms, typedefs, instances), each an ordered sequence
//! of typed clauses under one identifying header.
//!
//! Clause order inside a frame, and frame order inside the document, is
//! significant for canonical output but not for meaning.

use vstd::prelude::*;

use crate::ident::{Ident, IdentView};

verus! {

/// The scope of a synonym.
#[derive(Clone, Copy, PartialEq, Eq, Structural, Debug)]
pub enum SynonymScope {
    Broad,
    Exact,
    Narrow,
    Related,
}

#[verifier::ext_equal]
pub struct XrefView {
    pub id: IdentView,
    pub description: Option<Seq<char>>,
}

/// A cross-reference: an identifier with an optional quoted description.
pub struct Xref {
    pub id: Ident,
    pub description: Option<String>,
}

impl View for Xref {
    type V = XrefView;

    open spec fn view(&self) -> XrefView {
        XrefView {
            id: self.id@,
            description: match &self.description {
                Some(d) => Some(d@),
                None => None,
            },
        }
    }
}

impl Clone for Xref {
    fn clone(&self) -> (r: Self)
        ensures
            r@ == self@,
    {
        Xref {
            id: self.id.clone(),
            description: match &self.description {
                Some(d) => Some(d.clone()),
                None => None,
            },
        }
    }
}

/// View of a list of cross-references.
pub open spec fn xrefs_view(v: &Vec<Xref>) -> Seq<XrefView> {
    v@.map_values(|x: Xref| x@)
}

/// Copies a list of cross-references.
pub fn clone_xref_list(v: &Vec<Xref>) -> (r: Vec<Xref>)
    ensures
        xrefs_view(&r) == xrefs_view(v),
{
    let mut out: Vec<Xref> = Vec::new();
    let n = v.len();
    for i in 0..n
        invariant
            n == v.len(),
            xrefs_view(&out) == xrefs_view(v).take(i as int),
    {
        let ghost prev = xrefs_view(&out);
        out.push(v[i].clone());
        proof {
            assert(xrefs_view(&out) =~= prev + seq![out@.last()@]);
            assert(xrefs_view(v)[i as int] == v@[i as int]@);
            assert(prev + seq![out@.last()@] =~= xrefs_view(v).take(i + 1));
        }
    }
    proof {
        assert(xrefs_view(v).take(n as int) =~= xrefs_view(v));
    }
    out
}

#[verifier::ext_equal]
pub struct SynonymView {
    pub text: Seq<char>,
    pub scope: SynonymScope,
    pub ty: Option<IdentView>,
    pub xrefs: Seq<XrefView>,
}

/// A synonym: its text, scope, optional synonym type, and cross-references.
pub struct Synonym {
    pub text: String,
    pub scope: SynonymScope,
    pub ty: Option<Ident>,
    pub xrefs: Vec<Xref>,
}

impl Clone for Synonym {
    fn clone(&self) -> (r: Self)
        ensures
            r@ == self@,
    {
        let r = Synonym {
            text: self.text.clone(),
            scope: self.scope,
            ty: match &self.ty {
                Some(t) => Some(t.clone()),
                None => None,
            },
            xrefs: clone_xref_list(&self.xrefs),
        };
        proof {
            assert(r@ =~= self@);
        }
        r
    }
}

impl View for Synonym {
    type V = SynonymView;

    open spec fn view(&self) -> SynonymView {
        SynonymView {
            text: self.text@,
            scope: self.scope,
            ty: match &self.ty {
                Some(t) => Some(t@),
                None => None,
            },
            xrefs: xrefs_view(&self.xrefs),
        }
    }
}

#[verifier::ext_equal]
pub enum PropertyValueView {
    Resource { prop: IdentView, target: IdentView },
    Literal { prop: IdentView, val: Seq<char>, ty: IdentView },
}

/// A generic annotation: a property identifier with either a resource
/// identifier or a typed literal as its value.
pub enum PropertyValue {
    Resource(Ident, Ident),
    Literal(Ident, String, Ident),
}

impl View for PropertyValue {
    type V = PropertyValueView;

    open spec fn view(&self) -> PropertyValueView {
        match self {
            PropertyValue::Resource(p, t) => PropertyValueView::Resource { prop: p@, target: t@ },
            PropertyValue::Literal(p, v, ty) => PropertyValueView::Literal {
                prop: p@,
                val: v@,
                ty: ty@,
            },
        }
    }
}

/// View of an optional string.
pub open spec fn ast_opt_str_view(s: &Option<String>) -> Option<Seq<char>> {
    match s {
        Some(x) => Some(x@),
        None => None,
    }
}

#[verifier::ext_equal]
pub enum HeaderClauseView {
    FormatVersion { v: Seq<char> },
    DataVersion { v: Seq<char> },
    Date { v: Seq<char> },
    SavedBy { v: Seq<char> },
    AutoGeneratedBy { v: Seq<char> },
    Import { v: Seq<char> },
    Subsetdef { id: IdentView, def: Seq<char> },
    SynonymTypedef { id: IdentView, def: Seq<char>, scope: Option<SynonymScope> },
    DefaultNamespace { id: IdentView },
    NamespaceIdRule { v: Seq<char> },
    Idspace { prefix: Seq<char>, base: Seq<char>, def: Option<Seq<char>> },
    PropertyValue { pv: PropertyValueView },
    Remark { v: Seq<char> },
    Ontology { v: Seq<char> },
    OwlAxioms { v: Seq<char> },
    Unreserved { key: Seq<char>, v: Seq<char> },
}

/// One clause of the document header. The `treat-xrefs` macro clauses are
/// handled by preprocessing outside the library and do not appear here.
pub enum HeaderClause {
    FormatVersion(String),
    DataVersion(String),
    Date(String),
    SavedBy(String),
    AutoGeneratedBy(String),
    Import(String),
    Subsetdef(Ident, String),
    SynonymTypedef(Ident, String, Option<SynonymScope>),
    DefaultNamespace(Ident),
    NamespaceIdRule(String),
    Idspace(String, String, Option<String>),
    PropertyValue(PropertyValue),
    Remark(String),
    Ontology(String),
    OwlAxioms(String),
    Unreserved(String, String),
}

impl View for HeaderClause {
    type V = HeaderClauseView;

    open spec fn view(&self) -> HeaderClauseView {
        match self {
            HeaderClause::FormatVersion(v) => HeaderClauseView::FormatVersion { v: v@ },
            HeaderClause::DataVersion(v) => HeaderClauseView::DataVersion { v: v@ },
            HeaderClause::Date(v) => HeaderClauseView::Date { v: v@ },
            HeaderClause::SavedBy(v) => HeaderClauseView::SavedBy { v: v@ },
            HeaderClause::AutoGeneratedBy(v) => HeaderClauseView::AutoGeneratedBy { v: v@ },
            HeaderClause::Import(v) => HeaderClauseView::Import { v: v@ },
            HeaderClause::Subsetdef(id, def) => HeaderClauseView::Subsetdef {
                id: id@,
                def: def@,
            },
            HeaderClause::SynonymTypedef(id, def, scope) => HeaderClauseView::SynonymTypedef {
                id: id@,
                def: def@,
                scope: *scope,
            },
            HeaderClause::DefaultNamespace(id) => HeaderClauseView::DefaultNamespace { id: id@ },
            HeaderClause::NamespaceIdRule(v) => HeaderClauseView::NamespaceIdRule { v: v@ },
            HeaderClause::Idspace(prefix, base, def) => HeaderClauseView::Idspace {
                prefix: prefix@,
                base: base@,
                def: ast_opt_str_view(def),
            },
            HeaderClause::PropertyValue(pv) => HeaderClauseView::PropertyValue { pv: pv@ },
            HeaderClause::Remark(v) => HeaderClauseView::Remark { v: v@ },
            HeaderClause::Ontology(v) => HeaderClauseView::Ontology { v: v@ },
            HeaderClause::OwlAxioms(v) => HeaderClauseView::OwlAxioms { v: v@ },
            HeaderClause::Unreserved(key, v) => HeaderClauseView::Unreserved { key: key@, v: v@ },
        }
    }
}

#[verifier::ext_equal]
pub enum TermClauseView {
    IsAnonymous { b: bool },
    Name { name: Seq<char> },
    Namespace { id: IdentView },
    AltId { id: IdentView },
    Def { text: Seq<char>, xrefs: Seq<XrefView> },
    Comment { text: Seq<char> },
    Subset { id: IdentView },
    Synonym { syn: SynonymView },
    Xref { xref: XrefView },
    Builtin { b: bool },
    PropertyValue { pv: PropertyValueView },
    IsA { id: IdentView },
    IntersectionOf { rel: Option<IdentView>, id: IdentView },
    UnionOf { id: IdentView },
    EquivalentTo { id: IdentView },
    DisjointFrom { id: IdentView },
    Relationship { rel: IdentView, id: IdentView },
    CreatedBy { name: Seq<char> },
    CreationDate { date: Seq<char> },
    IsObsolete { b: bool },
    ReplacedBy { id: IdentView },
    Consider { id: IdentView },
}

/// One clause of a term frame.
pub enum TermClause {
    IsAnonymous(bool),
    Name(String),
    Namespace(Ident),
    AltId(Ident),
    Def(String, Vec<Xref>),
    Comment(String),
    Subset(Ident),
    Synonym(Synonym),
    Xref(Xref),
    Builtin(bool),
    PropertyValue(PropertyValue),
    IsA(Ident),
    IntersectionOf(Option<Ident>, Ident),
    UnionOf(Ident),
    EquivalentTo(Ident),
    DisjointFrom(Ident),
    Relationship(Ident, Ident),
    CreatedBy(String),
    CreationDate(String),
    IsObsolete(bool),
    ReplacedBy(Ident),
    Consider(Ident),
}

impl View for TermClause {
    type V = TermClauseView;

    open spec fn view(&self) -> TermClauseView {
        match self {
            TermClause::IsAnonymous(b) => TermClauseView::IsAnonymous { b: *b },
            TermClause::Name(n) => TermClauseView::Name { name: n@ },
            TermClause::Namespace(id) => TermClauseView::Namespace { id: id@ },
            TermClause::AltId(id) => TermClauseView::AltId { id: id@ },
            TermClause::Def(text, xrefs) => TermClauseView::Def {
                text: text@,
                xrefs: xrefs_view(xrefs),
            },
            TermClause::Comment(t) => TermClauseView::Comment { text: t@ },
            TermClause::Subset(id) => TermClauseView::Subset { id: id@ },
            TermClause::Synonym(s) => TermClauseView::Synonym { syn: s@ },
            TermClause::Xref(x) => TermClauseView::Xref { xref: x@ },
            TermClause::Builtin(b) => TermClauseView::Builtin { b: *b },
            TermClause::PropertyValue(pv) => TermClauseView::PropertyValue { pv: pv@ },
            TermClause::IsA(id) => TermClauseView::IsA { id: id@ },
            TermClause::IntersectionOf(rel, id) => TermClauseView::IntersectionOf {
                rel: match rel {
                    Some(r) => Some(r@),
                    None => None,
                },
                id: id@,
            },
            TermClause::UnionOf(id) => TermClauseView::UnionOf { id: id@ },
            TermClause::EquivalentTo(id) => TermClauseView::EquivalentTo { id: id@ },
            TermClause::DisjointFrom(id) => TermClauseView::DisjointFrom { id: id@ },
            TermClause::Relationship(rel, id) => TermClauseView::Relationship {
                rel: rel@,
                id: id@,
            },
            TermClause::CreatedBy(n) => TermClauseView::CreatedBy { name: n@ },
            TermClause::CreationDate(d) => TermClauseView::CreationDate { date: d@ },
            TermClause::IsObsolete(b) => TermClauseView::IsObsolete { b: *b },
            TermClause::ReplacedBy(id) => TermClauseView::ReplacedBy { id: id@ },
            TermClause::Consider(id) => TermClauseView::Consider { id: id@ },
        }
    }
}

#[verifier::ext_equal]
pub enum TypedefClauseView {
    IsAnonymous { b: bool },
    Name { name: Seq<char> },
    Namespace { id: IdentView },
    AltId { id: IdentView },
    Def { text: Seq<char>, xrefs: Seq<XrefView> },
    Comment { text: Seq<char> },
    Subset { id: IdentView },
    Synonym { syn: SynonymView },
    Xref { xref: XrefView },
    PropertyValue { pv: PropertyValueView },
    Domain { id: IdentView },
    Range { id: IdentView },
    Builtin { b: bool },
    HoldsOverChain { r1: IdentView, r2: IdentView },
    IsAntiSymmetric { b: bool },
    IsCyclic { b: bool },
    IsReflexive { b: bool },
    IsSymmetric { b: bool },
    IsAsymmetric { b: bool },
    IsTransitive { b: bool },
    IsFunctional { b: bool },
    IsInverseFunctional { b: bool },
    IsA { id: IdentView },
    IntersectionOf { id: IdentView },
    UnionOf { id: IdentView },
    EquivalentTo { id: IdentView },
    DisjointFrom { id: IdentView },
    InverseOf { id: IdentView },
    TransitiveOver { id: IdentView },
    EquivalentToChain { r1: IdentView, r2: IdentView },
    DisjointOver { id: IdentView },
    Relationship { rel: IdentView, id: IdentView },
    IsObsolete { b: bool },
    ReplacedBy { id: IdentView },
    Consider { id: IdentView },
    CreatedBy { name: Seq<char> },
    CreationDate { date: Seq<char> },
    ExpandAssertionTo { text: Seq<char>, xrefs: Seq<XrefView> },
    ExpandExpressionTo { text: Seq<char>, xrefs: Seq<XrefView> },
    IsMetadataTag { b: bool },
    IsClassLevel { b: bool },
}

/// One clause of a typedef (relation) frame.
pub enum TypedefClause {
    IsAnonymous(bool),
    Name(String),
    Namespace(Ident),
    AltId(Ident),
    Def(String, Vec<Xref>),
    Comment(String),
    Subset(Ident),
    Synonym(Synonym),
    Xref(Xref),
    PropertyValue(PropertyValue),
    Domain(Ident),
    Range(Ident),
    Builtin(bool),
    HoldsOverChain(Ident, Ident),
    IsAntiSymmetric(bool),
    IsCyclic(bool),
    IsReflexive(bool),
    IsSymmetric(bool),
    IsAsymmetric(bool),
    IsTransitive(bool),
    IsFunctional(bool),
    IsInverseFunctional(bool),
    IsA(Ident),
    IntersectionOf(Ident),
    UnionOf(Ident),
    EquivalentTo(Ident),
    DisjointFrom(Ident),
    InverseOf(Ident),
    TransitiveOver(Ident),
    EquivalentToChain(Ident, Ident),
    DisjointOver(Ident),
    Relationship(Ident, Ident),
    IsObsolete(bool),
    ReplacedBy(Ident),
    Consider(Ident),
    CreatedBy(String),
    CreationDate(String),
    ExpandAssertionTo(String, Vec<Xref>),
    ExpandExpressionTo(String, Vec<Xref>),
    IsMetadataTag(bool),
    IsClassLevel(bool),
}

impl View for TypedefClause {
    type V = TypedefClauseView;

    open spec fn view(&self) -> TypedefClauseView {
        match self {
            TypedefClause::IsAnonymous(b) => TypedefClauseView::IsAnonymous { b: *b },
            TypedefClause::Name(n) => TypedefClauseView::Name { name: n@ },
            TypedefClause::Namespace(id) => TypedefClauseView::Namespace { id: id@ },
            TypedefClause::AltId(id) => TypedefClauseView::AltId { id: id@ },
            TypedefClause::Def(text, xrefs) => TypedefClauseView::Def {
                text: text@,
                xrefs: xrefs_view(xrefs),
            },
            TypedefClause::Comment(t) => TypedefClauseView::Comment { text: t@ },
            TypedefClause::Subset(id) => TypedefClauseView::Subset { id: id@ },
            TypedefClause::Synonym(s) => TypedefClauseView::Synonym { syn: s@ },
            TypedefClause::Xref(x) => TypedefClauseView::Xref { xref: x@ },
            TypedefClause::PropertyValue(pv) => TypedefClauseView::PropertyValue { pv: pv@ },
            TypedefClause::Domain(id) => TypedefClauseView::Domain { id: id@ },
            TypedefClause::Range(id) => TypedefClauseView::Range { id: id@ },
            TypedefClause::Builtin(b) => TypedefClauseView::Builtin { b: *b },
            TypedefClause::HoldsOverChain(r1, r2) => TypedefClauseView::HoldsOverChain {
                r1: r1@,
                r2: r2@,
            },
            TypedefClause::IsAntiSymmetric(b) => TypedefClauseView::IsAntiSymmetric { b: *b },
            TypedefClause::IsCyclic(b) => TypedefClauseView::IsCyclic { b: *b },
            TypedefClause::IsReflexive(b) => TypedefClauseView::IsReflexive { b: *b },
            TypedefClause::IsSymmetric(b) => TypedefClauseView::IsSymmetric { b: *b },
            TypedefClause::IsAsymmetric(b) => TypedefClauseView::IsAsymmetric { b: *b },
            TypedefClause::IsTransitive(b) => TypedefClauseView::IsTransitive { b: *b },
            TypedefClause::IsFunctional(b) => TypedefClauseView::IsFunctional { b: *b },
            TypedefClause::IsInverseFunctional(b) => TypedefClauseView::IsInverseFunctional {
                b: *b,
            },
            TypedefClause::IsA(id) => TypedefClauseView::IsA { id: id@ },
            TypedefClause::IntersectionOf(id) => TypedefClauseView::IntersectionOf { id: id@ },
            TypedefClause::UnionOf(id) => TypedefClauseView::UnionOf { id: id@ },
            TypedefClause::EquivalentTo(id) => TypedefClauseView::EquivalentTo { id: id@ },
            TypedefClause::DisjointFrom(id) => TypedefClauseView::DisjointFrom { id: id@ },
            TypedefClause::InverseOf(id) => TypedefClauseView::InverseOf { id: id@ },
            TypedefClause::TransitiveOver(id) => TypedefClauseView::TransitiveOver { id: id@ },
            TypedefClause::EquivalentToChain(r1, r2) => TypedefClauseView::EquivalentToChain {
                r1: r1@,
                r2: r2@,
            },
            TypedefClause::DisjointOver(id) => TypedefClauseView::DisjointOver { id: id@ },
            TypedefClause::Relationship(rel, id) => TypedefClauseView::Relationship {
                rel: rel@,
                id: id@,
            },
            TypedefClause::IsObsolete(b) => TypedefClauseView::IsObsolete { b: *b },
            TypedefClause::ReplacedBy(id) => TypedefClauseView::ReplacedBy { id: id@ },
            TypedefClause::Consider(id) => TypedefClauseView::Consider { id: id@ },
            TypedefClause::CreatedBy(n) => TypedefClauseView::CreatedBy { name: n@ },
            TypedefClause::CreationDate(d) => TypedefClauseView::CreationDate { date: d@ },
            TypedefClause::ExpandAssertionTo(text, xrefs) => TypedefClauseView::ExpandAssertionTo {
                text: text@,
                xrefs: xrefs_view(xrefs),
            },
            TypedefClause::ExpandExpressionTo(
                text,
                xrefs,
            ) => TypedefClauseView::ExpandExpressionTo { text: text@, xrefs: xrefs_view(xrefs) },
            TypedefClause::IsMetadataTag(b) => TypedefClauseView::IsMetadataTag { b: *b },
            TypedefClause::IsClassLevel(b) => TypedefClauseView::IsClassLevel { b: *b },
        }
    }
}

#[verifier::ext_equal]
pub enum InstanceClauseView {
    IsAnonymous { b: bool },
    Name { name: Seq<char> },
    Namespace { id: IdentView },
    AltId { id: IdentView },
    Def { text: Seq<char>, xrefs: Seq<XrefView> },
    Comment { text: Seq<char> },
    Subset { id: IdentView },
    Synonym { syn: SynonymView },
    Xref { xref: XrefView },
    PropertyValue { pv: PropertyValueView },
    InstanceOf { id: IdentView },
    Relationship { rel: IdentView, id: IdentView },
    CreatedBy { name: Seq<char> },
    CreationDate { date: Seq<char> },
    IsObsolete { b: bool },
    ReplacedBy { id: IdentView },
    Consider { id: IdentView },
}

/// One clause of an instance frame.
pub enum InstanceClause {
    IsAnonymous(bool),
    Name(String),
    Namespace(Ident),
    AltId(Ident),
    Def(String, Vec<Xref>),
    Comment(String),
    Subset(Ident),
    Synonym(Synonym),
    Xref(Xref),
    PropertyValue(PropertyValue),
    InstanceOf(Ident),
    Relationship(Ident, Ident),
    CreatedBy(String),
    CreationDate(String),
    IsObsolete(bool),
    ReplacedBy(Ident),
    Consider(Ident),
}

impl View for InstanceClause {
    type V = InstanceClauseView;

    open spec fn view(&self) -> InstanceClauseView {
        match self {
            InstanceClause::IsAnonymous(b) => InstanceClauseView::IsAnonymous { b: *b },
            InstanceClause::Name(n) => InstanceClauseView::Name { name: n@ },
            InstanceClause::Namespace(id) => InstanceClauseView::Namespace { id: id@ },
            InstanceClause::AltId(id) => InstanceClauseView::AltId { id: id@ },
            InstanceClause::Def(text, xrefs) => InstanceClauseView::Def {
                text: text@,
                xrefs: xrefs_view(xrefs),
            },
            InstanceClause::Comment(t) => InstanceClauseView::Comment { text: t@ },
            InstanceClause::Subset(id) => InstanceClauseView::Subset { id: id@ },
            InstanceClause::Synonym(s) => InstanceClauseView::Synonym { syn: s@ },
            InstanceClause::Xref(x) => InstanceClauseView::Xref { xref: x@ },
            InstanceClause::PropertyValue(pv) => InstanceClauseView::PropertyValue { pv: pv@ },
            InstanceClause::InstanceOf(id) => InstanceClauseView::InstanceOf { id: id@ },
            InstanceClause::Relationship(rel, id) => InstanceClauseView::Relationship {
                rel: rel@,
                id: id@,
            },
            InstanceClause::CreatedBy(n) => InstanceClauseView::CreatedBy { name: n@ },
            InstanceClause::CreationDate(d) => InstanceClauseView::CreationDate { date: d@ },
            InstanceClause::IsObsolete(b) => InstanceClauseView::IsObsolete { b: *b },
            InstanceClause::ReplacedBy(id) => InstanceClauseView::ReplacedBy { id: id@ },
            InstanceClause::Consider(id) => InstanceClauseView::Consider { id: id@ },
        }
    }
}

#[verifier::ext_equal]
pub struct TermFrameView {
    pub id: IdentView,
    pub clauses: Seq<TermClauseView>,
}

/// A term frame: one ontology class and its clauses.
pub struct TermFrame {
    pub id: Ident,
    pub clauses: Vec<TermClause>,
}

impl View for TermFrame {
    type V = TermFrameView;

    open spec fn view(&self) -> TermFrameView {
        TermFrameView { id: self.id@, clauses: self.clauses@.map_values(|c: TermClause| c@) }
    }
}

#[verifier::ext_equal]
pub struct TypedefFrameView {
    pub id: IdentView,
    pub clauses: Seq<TypedefClauseView>,
}

/// A typedef frame: one relation and its clauses.
pub struct TypedefFrame {
    pub id: Ident,
    pub clauses: Vec<TypedefClause>,
}

impl View for TypedefFrame {
    type V = TypedefFrameView;

    open spec fn view(&self) -> TypedefFrameView {
        TypedefFrameView { id: self.id@, clauses: self.clauses@.map_values(|c: TypedefClause| c@) }
    }
}

#[verifier::ext_equal]
pub struct InstanceFrameView {
    pub id: IdentView,
    pub clauses: Seq<InstanceClauseView>,
}

/// An instance frame: one individual and its clauses.
pub struct InstanceFrame {
    pub id: Ident,
    pub clauses: Vec<InstanceClause>,
}

impl View for InstanceFrame {
    type V = InstanceFrameView;

    open spec fn view(&self) -> InstanceFrameView {
        InstanceFrameView {
            id: self.id@,
            clauses: self.clauses@.map_values(|c: InstanceClause| c@),
        }
    }
}

#[verifier::ext_equal]
pub enum EntityFrameView {
    Term { frame: TermFrameView },
    Typedef { frame: TypedefFrameView },
    Instance { frame: InstanceFrameView },
}

/// An entity frame of any of the three kinds.
pub enum EntityFrame {
    Term(TermFrame),
    Typedef(TypedefFrame),
    Instance(InstanceFrame),
}

impl View for EntityFrame {
    type V = EntityFrameView;

    open spec fn view(&self) -> EntityFrameView {
        match self {
            EntityFrame::Term(f) => EntityFrameView::Term { frame: f@ },
            EntityFrame::Typedef(f) => EntityFrameView::Typedef { frame: f@ },
            EntityFrame::Instance(f) => EntityFrameView::Instance { frame: f@ },
        }
    }
}

impl EntityFrameView {
    /// The identifier of the frame, whatever its kind.
    pub open spec fn entity_id(self) -> IdentView {
        match self {
            EntityFrameView::Term { frame } => frame.id,
            EntityFrameView::Typedef { frame } => frame.id,
            EntityFrameView::Instance { frame } => frame.id,
        }
    }
}

impl EntityFrame {
    /// A reference to the identifier of the frame, whatever its kind.
    pub fn entity_id(&self) -> (r: &Ident)
        ensures
            r@ == self@.entity_id(),
    {
        match self {
            EntityFrame::Term(f) => &f.id,
            EntityFrame::Typedef(f) => &f.id,
            EntityFrame::Instance(f) => &f.id,
        }
    }
}

#[verifier::ext_equal]
pub struct HeaderFrameView {
    pub clauses: Seq<HeaderClauseView>,
}

/// The header frame: the ordered global clauses of a document.
pub struct HeaderFrame {
    pub clauses: Vec<HeaderClause>,
}

impl View for HeaderFrame {
    type V = HeaderFrameView;

    open spec fn view(&self) -> HeaderFrameView {
        HeaderFrameView { clauses: self.clauses@.map_values(|c: HeaderClause| c@) }
    }
}

#[verifier::ext_equal]
pub struct OboDocView {
    pub header: HeaderFrameView,
    pub entities: Seq<EntityFrameView>,
}

/// A whole flat document: a header and its entity frames.
pub struct OboDoc {
    pub header: HeaderFrame,
    pub entities: Vec<EntityFrame>,
}

impl View for OboDoc {
    type V = OboDocView;

    open spec fn view(&self) -> OboDocView {
        OboDocView {
            header: self.header@,
            entities: self.entities@.map_values(|e: EntityFrame| e@),
        }
    }
}

} // verus!
