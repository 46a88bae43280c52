//! Graph to document: rebuilds entity frames from nodes, attaches edges,
//! equivalence sets and domain/range axioms to the matching frames,
//! reverses the header table, sorts the frames into the canonical order
//! and compacts identifiers.
//!
//! Identifier text arriving here is free text, so every identifier is
//! parsed; a malformed one aborts the conversion with a syntax error.

use vstd::prelude::*;
use vstd::string::*;

use crate::ast::{
    EntityFrame, EntityFrameView, HeaderClause, HeaderClauseView, HeaderFrame, HeaderFrameView,
    InstanceClause, InstanceClauseView, InstanceFrame, InstanceFrameView, OboDoc, OboDocView,
    PropertyValue, PropertyValueView, Synonym, SynonymScope, SynonymView, TermClause,
    TermClauseView, TermFrame, TermFrameView, TypedefClause, TypedefClauseView, TypedefFrame,
    TypedefFrameView, Xref, XrefView,
};
use crate::constants::{
    antisymmetric_property, antisymmetric_property_str, created_by, created_by_str, creation_date,
    creation_date_str, dc_creator, dc_creator_str, dc_date, dc_date_str, has_alternative_id,
    has_alternative_id_str, has_obo_namespace, has_obo_namespace_str, is_class_level,
    is_class_level_str, is_cyclic, is_cyclic_str, is_metadata_tag, is_metadata_tag_str,
    rdfs_comment, rdfs_comment_str, replaced_by, replaced_by_str,
};
use crate::error::{error_of, Error, SpecError};
use crate::ident::{Ident, IdentView};
use crate::model::{
    BasicPropertyValue, BasicPvView, EdgeView, Meta, MetaView, Node, NodeType, NodeView,
    SynonymPropertyValue, SynonymPvView, XrefPropertyValue, XrefPvView,
};
use crate::parse::{creation_date_norm, parse_creation_date, parse_ident, parsed_ident};
use crate::strutil;

verus! {

// ---------------------------------------------------------------------
// Small parsers
// ---------------------------------------------------------------------

/// Strict boolean text: exactly `true` or `false`, anything else is a
/// boolean error carrying the source text.
pub open spec fn spec_parse_bool(s: Seq<char>) -> Result<bool, SpecError> {
    if s == "true"@ {
        Ok(true)
    } else if s == "false"@ {
        Ok(false)
    } else {
        Err(SpecError::InvalidBoolean { text: s })
    }
}

/// Parses strict boolean text.
pub fn parse_bool(s: &str) -> (r: Result<bool, Error>)
    ensures
        match r {
            Ok(b) => spec_parse_bool(s@) == Result::<bool, SpecError>::Ok(b),
            Err(e) => spec_parse_bool(s@) == Result::<bool, SpecError>::Err(error_of(e@)),
        },
{
    if strutil::str_eq(s, "true") {
        Ok(true)
    } else if strutil::str_eq(s, "false") {
        Ok(false)
    } else {
        Err(Error::InvalidBoolean(s.to_owned()))
    }
}

/// The parse of creation-date text, as a result: text holding a comma is
/// a syntax error (the external date parser cannot take a comma as the
/// fraction separator), otherwise the canonical rendering of the parsed
/// date.
pub open spec fn spec_creation_date(s: Seq<char>) -> Result<Seq<char>, SpecError> {
    if crate::strutil::first_index_of(s, ',') != -1 {
        Err(SpecError::Syntax)
    } else {
        match creation_date_norm(s) {
            Some(d) => Ok(d),
            None => Err(SpecError::Syntax),
        }
    }
}

/// Parses creation-date text, rejecting text with a comma first.
fn creation_date_of(s: &str) -> (r: Result<String, Error>)
    ensures
        match r {
            Ok(d) => spec_creation_date(s@) == Result::<Seq<char>, SpecError>::Ok(d@),
            Err(e) => spec_creation_date(s@) == Result::<Seq<char>, SpecError>::Err(error_of(e@)),
        },
{
    match strutil::find_char(s, ',') {
        Some(_) => Err(Error::OboSyntaxError("unexpected comma in date text".to_owned())),
        None => {
            proof {
                strutil::lemma_first_index_of(s@, ',');
            }
            parse_creation_date(s)
        },
    }
}

/// The parse of identifier text, as a result.
pub open spec fn spec_ident(s: Seq<char>) -> Result<IdentView, SpecError> {
    match parsed_ident(s) {
        Some(id) => Ok(id),
        None => Err(SpecError::Syntax),
    }
}

/// Parses identifier text, mapping a rejection to a syntax error.
fn ident_of(s: &str) -> (r: Result<Ident, Error>)
    ensures
        match r {
            Ok(id) => spec_ident(s@) == Result::<IdentView, SpecError>::Ok(id@),
            Err(e) => spec_ident(s@) == Result::<IdentView, SpecError>::Err(error_of(e@)),
        },
{
    parse_ident(s)
}

/// The synonym scope a predicate keyword names; any other predicate is an
/// unrecognized-synonym-predicate error carrying that text.
pub open spec fn spec_scope(pred: Seq<char>) -> Result<SynonymScope, SpecError> {
    if pred == "hasBroadSynonym"@ {
        Ok(SynonymScope::Broad)
    } else if pred == "hasExactSynonym"@ {
        Ok(SynonymScope::Exact)
    } else if pred == "hasNarrowSynonym"@ {
        Ok(SynonymScope::Narrow)
    } else if pred == "hasRelatedSynonym"@ {
        Ok(SynonymScope::Related)
    } else {
        Err(SpecError::InvalidSynonymType { pred })
    }
}

/// Cross-references from a list of identifier texts (no descriptions).
pub open spec fn spec_xrefs_of(vals: Seq<Seq<char>>) -> Result<Seq<XrefView>, SpecError>
    decreases vals.len(),
{
    if vals.len() == 0 {
        Ok(Seq::empty())
    } else {
        match spec_ident(vals[0]) {
            Ok(id) => match spec_xrefs_of(vals.skip(1)) {
                Ok(rest) => Ok(seq![XrefView { id, description: None }] + rest),
                Err(e) => Err(e),
            },
            Err(e) => Err(e),
        }
    }
}

/// Parses a list of identifier texts into cross-references.
fn xrefs_of(vals: &Vec<String>) -> (r: Result<Vec<Xref>, Error>)
    ensures
        match r {
            Ok(xs) => spec_xrefs_of(crate::model::strs_view(vals)) == Result::<
                Seq<XrefView>,
                SpecError,
            >::Ok(crate::ast::xrefs_view(&xs)),
            Err(e) => spec_xrefs_of(crate::model::strs_view(vals)) == Result::<
                Seq<XrefView>,
                SpecError,
            >::Err(error_of(e@)),
        },
{
    let ghost vs = crate::model::strs_view(vals);
    let mut out: Vec<Xref> = Vec::new();
    let n = vals.len();
    proof {
        assert(vs.skip(0) =~= vs);
    }
    for i in 0..n
        invariant
            n == vals.len(),
            vs == crate::model::strs_view(vals),
            spec_xrefs_of(vs) matches Ok(all) ==> all == crate::ast::xrefs_view(&out)
                + (match spec_xrefs_of(vs.skip(i as int)) {
                Ok(rest) => rest,
                Err(_) => Seq::empty(),
            }),
            spec_xrefs_of(vs) is Ok <==> spec_xrefs_of(vs.skip(i as int)) is Ok,
            spec_xrefs_of(vs) matches Err(e) ==> spec_xrefs_of(vs.skip(i as int)) == Result::<
                Seq<XrefView>,
                SpecError,
            >::Err(e),
    {
        proof {
            assert(vs.skip(i as int)[0] == vs[i as int]);
            assert(vs.skip(i as int).skip(1) =~= vs.skip(i + 1));
        }
        match ident_of(vals[i].as_str()) {
            Ok(id) => {
                out.push(Xref { id, description: None });
                proof {
                    if spec_xrefs_of(vs) is Ok {
                        assert(crate::ast::xrefs_view(&out) =~= crate::ast::xrefs_view(&out).take(
                            out@.len() - 1,
                        ) + seq![out@.last()@]);
                    }
                }
            },
            Err(e) => {
                return Err(e);
            },
        }
    }
    proof {
        assert(vs.skip(n as int) =~= Seq::<Seq<char>>::empty());
        if spec_xrefs_of(vs) is Ok {
            assert(spec_xrefs_of(vs)->Ok_0 =~= crate::ast::xrefs_view(&out));
        }
    }
    Ok(out)
}

/// A synonym from its graph property value: the predicate must be one of
/// the four scope keywords, the cross-reference texts must parse.
pub open spec fn spec_synonym_of(pv: SynonymPvView) -> Result<SynonymView, SpecError> {
    match spec_scope(pv.pred) {
        Ok(scope) => match spec_xrefs_of(pv.xrefs) {
            Ok(xs) => Ok(SynonymView { text: pv.val, scope, ty: None, xrefs: xs }),
            Err(e) => Err(e),
        },
        Err(e) => Err(e),
    }
}

impl Synonym {
    /// Rebuilds a synonym from its graph property value.
    pub fn from_graph(pv: &SynonymPropertyValue) -> (r: Result<Synonym, Error>)
        ensures
            match r {
                Ok(s) => spec_synonym_of(pv@) == Result::<SynonymView, SpecError>::Ok(s@),
                Err(e) => spec_synonym_of(pv@) == Result::<SynonymView, SpecError>::Err(
                    error_of(e@),
                ),
            },
    {
        let scope = if strutil::str_eq(pv.pred.as_str(), "hasBroadSynonym") {
            SynonymScope::Broad
        } else if strutil::str_eq(pv.pred.as_str(), "hasExactSynonym") {
            SynonymScope::Exact
        } else if strutil::str_eq(pv.pred.as_str(), "hasNarrowSynonym") {
            SynonymScope::Narrow
        } else if strutil::str_eq(pv.pred.as_str(), "hasRelatedSynonym") {
            SynonymScope::Related
        } else {
            return Err(Error::InvalidSynonymType(pv.pred.clone()));
        };
        match xrefs_of(&pv.xrefs) {
            Ok(xs) => Ok(Synonym { text: pv.val.clone(), scope, ty: None, xrefs: xs }),
            Err(e) => Err(e),
        }
    }
}

/// A cross-reference from its graph property value: the value must parse
/// as an identifier; the label and nested data are not carried over.
pub open spec fn spec_xref_of(pv: XrefPvView) -> Result<XrefView, SpecError> {
    match spec_ident(pv.val) {
        Ok(id) => Ok(XrefView { id, description: None }),
        Err(e) => Err(e),
    }
}

impl Xref {
    /// Rebuilds a cross-reference from its graph property value.
    pub fn from_graph(pv: &XrefPropertyValue) -> (r: Result<Xref, Error>)
        ensures
            match r {
                Ok(x) => spec_xref_of(pv@) == Result::<XrefView, SpecError>::Ok(x@),
                Err(e) => spec_xref_of(pv@) == Result::<XrefView, SpecError>::Err(error_of(e@)),
            },
    {
        match ident_of(pv.val.as_str()) {
            Ok(id) => Ok(Xref { id, description: None }),
            Err(e) => Err(e),
        }
    }
}

/// A generic annotation from a property value pair: the predicate must
/// parse; the value becomes a resource when it parses as an identifier,
/// otherwise a string-typed literal.
pub open spec fn spec_pv_of(pv: BasicPvView) -> Result<PropertyValueView, SpecError> {
    match spec_ident(pv.pred) {
        Ok(rel) => Ok(
            match parsed_ident(pv.val) {
                Some(id) => PropertyValueView::Resource { prop: rel, target: id },
                None => PropertyValueView::Literal {
                    prop: rel,
                    val: pv.val,
                    ty: IdentView::Prefixed { prefix: "xsd"@, local: "string"@ },
                },
            },
        ),
        Err(e) => Err(e),
    }
}

/// Rebuilds a generic annotation from a property value pair.
fn pv_of(pv: &BasicPropertyValue) -> (r: Result<PropertyValue, Error>)
    ensures
        match r {
            Ok(p) => spec_pv_of(pv@) == Result::<PropertyValueView, SpecError>::Ok(p@),
            Err(e) => spec_pv_of(pv@) == Result::<PropertyValueView, SpecError>::Err(error_of(e@)),
        },
{
    let rel = match ident_of(pv.pred.as_str()) {
        Ok(rel) => rel,
        Err(e) => {
            return Err(e);
        },
    };
    match ident_of(pv.val.as_str()) {
        Ok(id) => Ok(PropertyValue::Resource(rel, id)),
        Err(_) => Ok(
            PropertyValue::Literal(
                rel,
                pv.val.clone(),
                Ident::Prefixed("xsd".to_owned(), "string".to_owned()),
            ),
        ),
    }
}


// ---------------------------------------------------------------------
// The property-value tables
// ---------------------------------------------------------------------

/// The term-clause a property value pair determines: the fixed entity
/// predicate table, with any other predicate falling through to a generic
/// annotation.
pub open spec fn spec_term_bpv(pv: BasicPvView) -> Result<TermClauseView, SpecError> {
    if pv.pred == rdfs_comment() {
        Ok(TermClauseView::Comment { text: pv.val })
    } else if pv.pred == has_alternative_id() {
        match spec_ident(pv.val) {
            Ok(id) => Ok(TermClauseView::AltId { id }),
            Err(e) => Err(e),
        }
    } else if pv.pred == has_obo_namespace() {
        match spec_ident(pv.val) {
            Ok(id) => Ok(TermClauseView::Namespace { id }),
            Err(e) => Err(e),
        }
    } else if pv.pred == created_by() || pv.pred == dc_creator() {
        Ok(TermClauseView::CreatedBy { name: pv.val })
    } else if pv.pred == creation_date() || pv.pred == dc_date() {
        match spec_creation_date(pv.val) {
            Ok(d) => Ok(TermClauseView::CreationDate { date: d }),
            Err(e) => Err(e),
        }
    } else if pv.pred == replaced_by() {
        match spec_ident(pv.val) {
            Ok(id) => Ok(TermClauseView::ReplacedBy { id }),
            Err(e) => Err(e),
        }
    } else {
        match spec_pv_of(pv) {
            Ok(p) => Ok(TermClauseView::PropertyValue { pv: p }),
            Err(e) => Err(e),
        }
    }
}

/// Rebuilds one term clause from a property value pair.
fn term_bpv_clause(pv: &BasicPropertyValue) -> (r: Result<TermClause, Error>)
    ensures
        match r {
            Ok(c) => spec_term_bpv(pv@) == Result::<TermClauseView, SpecError>::Ok(c@),
            Err(e) => spec_term_bpv(pv@) == Result::<TermClauseView, SpecError>::Err(error_of(e@)),
        },
{
    let p = pv.pred.as_str();
    if strutil::str_eq(p, rdfs_comment_str()) {
        Ok(TermClause::Comment(pv.val.clone()))
    } else if strutil::str_eq(p, has_alternative_id_str()) {
        match ident_of(pv.val.as_str()) {
            Ok(id) => Ok(TermClause::AltId(id)),
            Err(e) => Err(e),
        }
    } else if strutil::str_eq(p, has_obo_namespace_str()) {
        match ident_of(pv.val.as_str()) {
            Ok(id) => Ok(TermClause::Namespace(id)),
            Err(e) => Err(e),
        }
    } else if strutil::str_eq(p, created_by_str()) || strutil::str_eq(p, dc_creator_str()) {
        Ok(TermClause::CreatedBy(pv.val.clone()))
    } else if strutil::str_eq(p, creation_date_str()) || strutil::str_eq(p, dc_date_str()) {
        match creation_date_of(pv.val.as_str()) {
            Ok(d) => Ok(TermClause::CreationDate(d)),
            Err(e) => Err(e),
        }
    } else if strutil::str_eq(p, replaced_by_str()) {
        match ident_of(pv.val.as_str()) {
            Ok(id) => Ok(TermClause::ReplacedBy(id)),
            Err(e) => Err(e),
        }
    } else {
        match pv_of(pv) {
            Ok(v) => Ok(TermClause::PropertyValue(v)),
            Err(e) => Err(e),
        }
    }
}

/// The typedef-clause a property value pair determines: the entity table
/// extended by the four boolean flags, whose values use strict boolean
/// parsing.
pub open spec fn spec_typedef_bpv(pv: BasicPvView) -> Result<TypedefClauseView, SpecError> {
    if pv.pred == rdfs_comment() {
        Ok(TypedefClauseView::Comment { text: pv.val })
    } else if pv.pred == has_alternative_id() {
        match spec_ident(pv.val) {
            Ok(id) => Ok(TypedefClauseView::AltId { id }),
            Err(e) => Err(e),
        }
    } else if pv.pred == has_obo_namespace() {
        match spec_ident(pv.val) {
            Ok(id) => Ok(TypedefClauseView::Namespace { id }),
            Err(e) => Err(e),
        }
    } else if pv.pred == created_by() || pv.pred == dc_creator() {
        Ok(TypedefClauseView::CreatedBy { name: pv.val })
    } else if pv.pred == creation_date() || pv.pred == dc_date() {
        match spec_creation_date(pv.val) {
            Ok(d) => Ok(TypedefClauseView::CreationDate { date: d }),
            Err(e) => Err(e),
        }
    } else if pv.pred == replaced_by() {
        match spec_ident(pv.val) {
            Ok(id) => Ok(TypedefClauseView::ReplacedBy { id }),
            Err(e) => Err(e),
        }
    } else if pv.pred == is_cyclic() {
        match spec_parse_bool(pv.val) {
            Ok(b) => Ok(TypedefClauseView::IsCyclic { b }),
            Err(e) => Err(e),
        }
    } else if pv.pred == antisymmetric_property() {
        match spec_parse_bool(pv.val) {
            Ok(b) => Ok(TypedefClauseView::IsAntiSymmetric { b }),
            Err(e) => Err(e),
        }
    } else if pv.pred == is_class_level() {
        match spec_parse_bool(pv.val) {
            Ok(b) => Ok(TypedefClauseView::IsClassLevel { b }),
            Err(e) => Err(e),
        }
    } else if pv.pred == is_metadata_tag() {
        match spec_parse_bool(pv.val) {
            Ok(b) => Ok(TypedefClauseView::IsMetadataTag { b }),
            Err(e) => Err(e),
        }
    } else {
        match spec_pv_of(pv) {
            Ok(p) => Ok(TypedefClauseView::PropertyValue { pv: p }),
            Err(e) => Err(e),
        }
    }
}

/// Rebuilds one typedef clause from a property value pair.
fn typedef_bpv_clause(pv: &BasicPropertyValue) -> (r: Result<TypedefClause, Error>)
    ensures
        match r {
            Ok(c) => spec_typedef_bpv(pv@) == Result::<TypedefClauseView, SpecError>::Ok(c@),
            Err(e) => spec_typedef_bpv(pv@) == Result::<TypedefClauseView, SpecError>::Err(
                error_of(e@),
            ),
        },
{
    let p = pv.pred.as_str();
    if strutil::str_eq(p, rdfs_comment_str()) {
        Ok(TypedefClause::Comment(pv.val.clone()))
    } else if strutil::str_eq(p, has_alternative_id_str()) {
        match ident_of(pv.val.as_str()) {
            Ok(id) => Ok(TypedefClause::AltId(id)),
            Err(e) => Err(e),
        }
    } else if strutil::str_eq(p, has_obo_namespace_str()) {
        match ident_of(pv.val.as_str()) {
            Ok(id) => Ok(TypedefClause::Namespace(id)),
            Err(e) => Err(e),
        }
    } else if strutil::str_eq(p, created_by_str()) || strutil::str_eq(p, dc_creator_str()) {
        Ok(TypedefClause::CreatedBy(pv.val.clone()))
    } else if strutil::str_eq(p, creation_date_str()) || strutil::str_eq(p, dc_date_str()) {
        match creation_date_of(pv.val.as_str()) {
            Ok(d) => Ok(TypedefClause::CreationDate(d)),
            Err(e) => Err(e),
        }
    } else if strutil::str_eq(p, replaced_by_str()) {
        match ident_of(pv.val.as_str()) {
            Ok(id) => Ok(TypedefClause::ReplacedBy(id)),
            Err(e) => Err(e),
        }
    } else if strutil::str_eq(p, is_cyclic_str()) {
        match parse_bool(pv.val.as_str()) {
            Ok(b) => Ok(TypedefClause::IsCyclic(b)),
            Err(e) => Err(e),
        }
    } else if strutil::str_eq(p, antisymmetric_property_str()) {
        match parse_bool(pv.val.as_str()) {
            Ok(b) => Ok(TypedefClause::IsAntiSymmetric(b)),
            Err(e) => Err(e),
        }
    } else if strutil::str_eq(p, is_class_level_str()) {
        match parse_bool(pv.val.as_str()) {
            Ok(b) => Ok(TypedefClause::IsClassLevel(b)),
            Err(e) => Err(e),
        }
    } else if strutil::str_eq(p, is_metadata_tag_str()) {
        match parse_bool(pv.val.as_str()) {
            Ok(b) => Ok(TypedefClause::IsMetadataTag(b)),
            Err(e) => Err(e),
        }
    } else {
        match pv_of(pv) {
            Ok(v) => Ok(TypedefClause::PropertyValue(v)),
            Err(e) => Err(e),
        }
    }
}

/// The instance-clause a property value pair determines: the same entity
/// table as for terms.
pub open spec fn spec_instance_bpv(pv: BasicPvView) -> Result<InstanceClauseView, SpecError> {
    if pv.pred == rdfs_comment() {
        Ok(InstanceClauseView::Comment { text: pv.val })
    } else if pv.pred == has_alternative_id() {
        match spec_ident(pv.val) {
            Ok(id) => Ok(InstanceClauseView::AltId { id }),
            Err(e) => Err(e),
        }
    } else if pv.pred == has_obo_namespace() {
        match spec_ident(pv.val) {
            Ok(id) => Ok(InstanceClauseView::Namespace { id }),
            Err(e) => Err(e),
        }
    } else if pv.pred == created_by() || pv.pred == dc_creator() {
        Ok(InstanceClauseView::CreatedBy { name: pv.val })
    } else if pv.pred == creation_date() || pv.pred == dc_date() {
        match spec_creation_date(pv.val) {
            Ok(d) => Ok(InstanceClauseView::CreationDate { date: d }),
            Err(e) => Err(e),
        }
    } else if pv.pred == replaced_by() {
        match spec_ident(pv.val) {
            Ok(id) => Ok(InstanceClauseView::ReplacedBy { id }),
            Err(e) => Err(e),
        }
    } else {
        match spec_pv_of(pv) {
            Ok(p) => Ok(InstanceClauseView::PropertyValue { pv: p }),
            Err(e) => Err(e),
        }
    }
}

/// Rebuilds one instance clause from a property value pair.
fn instance_bpv_clause(pv: &BasicPropertyValue) -> (r: Result<InstanceClause, Error>)
    ensures
        match r {
            Ok(c) => spec_instance_bpv(pv@) == Result::<InstanceClauseView, SpecError>::Ok(c@),
            Err(e) => spec_instance_bpv(pv@) == Result::<InstanceClauseView, SpecError>::Err(
                error_of(e@),
            ),
        },
{
    let p = pv.pred.as_str();
    if strutil::str_eq(p, rdfs_comment_str()) {
        Ok(InstanceClause::Comment(pv.val.clone()))
    } else if strutil::str_eq(p, has_alternative_id_str()) {
        match ident_of(pv.val.as_str()) {
            Ok(id) => Ok(InstanceClause::AltId(id)),
            Err(e) => Err(e),
        }
    } else if strutil::str_eq(p, has_obo_namespace_str()) {
        match ident_of(pv.val.as_str()) {
            Ok(id) => Ok(InstanceClause::Namespace(id)),
            Err(e) => Err(e),
        }
    } else if strutil::str_eq(p, created_by_str()) || strutil::str_eq(p, dc_creator_str()) {
        Ok(InstanceClause::CreatedBy(pv.val.clone()))
    } else if strutil::str_eq(p, creation_date_str()) || strutil::str_eq(p, dc_date_str()) {
        match creation_date_of(pv.val.as_str()) {
            Ok(d) => Ok(InstanceClause::CreationDate(d)),
            Err(e) => Err(e),
        }
    } else if strutil::str_eq(p, replaced_by_str()) {
        match ident_of(pv.val.as_str()) {
            Ok(id) => Ok(InstanceClause::ReplacedBy(id)),
            Err(e) => Err(e),
        }
    } else {
        match pv_of(pv) {
            Ok(v) => Ok(InstanceClause::PropertyValue(v)),
            Err(e) => Err(e),
        }
    }
}


// ---------------------------------------------------------------------
// Metadata to clauses
// ---------------------------------------------------------------------

/// Identifiers from a list of identifier texts.
pub open spec fn spec_idents_of(vals: Seq<Seq<char>>) -> Result<Seq<IdentView>, SpecError>
    decreases vals.len(),
{
    if vals.len() == 0 {
        Ok(Seq::empty())
    } else {
        match spec_ident(vals[0]) {
            Ok(id) => match spec_idents_of(vals.skip(1)) {
                Ok(rest) => Ok(seq![id] + rest),
                Err(e) => Err(e),
            },
            Err(e) => Err(e),
        }
    }
}

/// Parses a list of identifier texts.
fn idents_of(vals: &Vec<String>) -> (r: Result<Vec<Ident>, Error>)
    ensures
        match r {
            Ok(ids) => spec_idents_of(crate::model::strs_view(vals)) == Result::<
                Seq<IdentView>,
                SpecError,
            >::Ok(ids@.map_values(|x: Ident| x@)),
            Err(e) => spec_idents_of(crate::model::strs_view(vals)) == Result::<
                Seq<IdentView>,
                SpecError,
            >::Err(error_of(e@)),
        },
{
    let ghost vs = crate::model::strs_view(vals);
    let mut out: Vec<Ident> = Vec::new();
    let n = vals.len();
    proof {
        assert(vs.skip(0) =~= vs);
    }
    for i in 0..n
        invariant
            n == vals.len(),
            vs == crate::model::strs_view(vals),
            spec_idents_of(vs) matches Ok(all) ==> all == out@.map_values(|x: Ident| x@)
                + (match spec_idents_of(vs.skip(i as int)) {
                Ok(rest) => rest,
                Err(_) => Seq::empty(),
            }),
            spec_idents_of(vs) is Ok <==> spec_idents_of(vs.skip(i as int)) is Ok,
            spec_idents_of(vs) matches Err(e) ==> spec_idents_of(vs.skip(i as int)) == Result::<
                Seq<IdentView>,
                SpecError,
            >::Err(e),
    {
        proof {
            assert(vs.skip(i as int)[0] == vs[i as int]);
            assert(vs.skip(i as int).skip(1) =~= vs.skip(i + 1));
        }
        match ident_of(vals[i].as_str()) {
            Ok(id) => {
                out.push(id);
                proof {
                    if spec_idents_of(vs) is Ok {
                        assert(out@.map_values(|x: Ident| x@) =~= out@.map_values(
                            |x: Ident| x@,
                        ).take(out@.len() - 1) + seq![out@.last()@]);
                    }
                }
            },
            Err(e) => {
                return Err(e);
            },
        }
    }
    proof {
        assert(vs.skip(n as int) =~= Seq::<Seq<char>>::empty());
        if spec_idents_of(vs) is Ok {
            assert(spec_idents_of(vs)->Ok_0 =~= out@.map_values(|x: Ident| x@));
        }
    }
    Ok(out)
}

/// Cross-references from the metadata's cross-reference property values.
pub open spec fn spec_xref_pvs_of(xs: Seq<XrefPvView>) -> Result<Seq<XrefView>, SpecError>
    decreases xs.len(),
{
    if xs.len() == 0 {
        Ok(Seq::empty())
    } else {
        match spec_xref_of(xs[0]) {
            Ok(x) => match spec_xref_pvs_of(xs.skip(1)) {
                Ok(rest) => Ok(seq![x] + rest),
                Err(e) => Err(e),
            },
            Err(e) => Err(e),
        }
    }
}

/// Rebuilds the cross-references of a metadata block.
fn xref_pvs_of(xs: &Vec<XrefPropertyValue>) -> (r: Result<Vec<Xref>, Error>)
    ensures
        match r {
            Ok(out) => spec_xref_pvs_of(xs@.map_values(|x: XrefPropertyValue| x@)) == Result::<
                Seq<XrefView>,
                SpecError,
            >::Ok(crate::ast::xrefs_view(&out)),
            Err(e) => spec_xref_pvs_of(xs@.map_values(|x: XrefPropertyValue| x@)) == Result::<
                Seq<XrefView>,
                SpecError,
            >::Err(error_of(e@)),
        },
{
    let ghost vs = xs@.map_values(|x: XrefPropertyValue| x@);
    let mut out: Vec<Xref> = Vec::new();
    let n = xs.len();
    proof {
        assert(vs.skip(0) =~= vs);
    }
    for i in 0..n
        invariant
            n == xs.len(),
            vs == xs@.map_values(|x: XrefPropertyValue| x@),
            spec_xref_pvs_of(vs) matches Ok(all) ==> all == crate::ast::xrefs_view(&out)
                + (match spec_xref_pvs_of(vs.skip(i as int)) {
                Ok(rest) => rest,
                Err(_) => Seq::empty(),
            }),
            spec_xref_pvs_of(vs) is Ok <==> spec_xref_pvs_of(vs.skip(i as int)) is Ok,
            spec_xref_pvs_of(vs) matches Err(e) ==> spec_xref_pvs_of(vs.skip(i as int))
                == Result::<Seq<XrefView>, SpecError>::Err(e),
    {
        proof {
            assert(vs.skip(i as int)[0] == vs[i as int]);
            assert(vs.skip(i as int).skip(1) =~= vs.skip(i + 1));
        }
        match Xref::from_graph(&xs[i]) {
            Ok(x) => {
                out.push(x);
                proof {
                    if spec_xref_pvs_of(vs) is Ok {
                        assert(crate::ast::xrefs_view(&out) =~= crate::ast::xrefs_view(&out).take(
                            out@.len() - 1,
                        ) + seq![out@.last()@]);
                    }
                }
            },
            Err(e) => {
                return Err(e);
            },
        }
    }
    proof {
        assert(vs.skip(n as int) =~= Seq::<XrefPvView>::empty());
        if spec_xref_pvs_of(vs) is Ok {
            assert(spec_xref_pvs_of(vs)->Ok_0 =~= crate::ast::xrefs_view(&out));
        }
    }
    Ok(out)
}

/// Synonyms from the metadata's synonym property values.
pub open spec fn spec_synonyms_of(ss: Seq<SynonymPvView>) -> Result<Seq<SynonymView>, SpecError>
    decreases ss.len(),
{
    if ss.len() == 0 {
        Ok(Seq::empty())
    } else {
        match spec_synonym_of(ss[0]) {
            Ok(x) => match spec_synonyms_of(ss.skip(1)) {
                Ok(rest) => Ok(seq![x] + rest),
                Err(e) => Err(e),
            },
            Err(e) => Err(e),
        }
    }
}

/// Rebuilds the synonyms of a metadata block.
fn synonyms_of(ss: &Vec<SynonymPropertyValue>) -> (r: Result<Vec<Synonym>, Error>)
    ensures
        match r {
            Ok(out) => spec_synonyms_of(ss@.map_values(|x: SynonymPropertyValue| x@)) == Result::<
                Seq<SynonymView>,
                SpecError,
            >::Ok(out@.map_values(|x: Synonym| x@)),
            Err(e) => spec_synonyms_of(ss@.map_values(|x: SynonymPropertyValue| x@)) == Result::<
                Seq<SynonymView>,
                SpecError,
            >::Err(error_of(e@)),
        },
{
    let ghost vs = ss@.map_values(|x: SynonymPropertyValue| x@);
    let mut out: Vec<Synonym> = Vec::new();
    let n = ss.len();
    proof {
        assert(vs.skip(0) =~= vs);
    }
    for i in 0..n
        invariant
            n == ss.len(),
            vs == ss@.map_values(|x: SynonymPropertyValue| x@),
            spec_synonyms_of(vs) matches Ok(all) ==> all == out@.map_values(|x: Synonym| x@)
                + (match spec_synonyms_of(vs.skip(i as int)) {
                Ok(rest) => rest,
                Err(_) => Seq::empty(),
            }),
            spec_synonyms_of(vs) is Ok <==> spec_synonyms_of(vs.skip(i as int)) is Ok,
            spec_synonyms_of(vs) matches Err(e) ==> spec_synonyms_of(vs.skip(i as int))
                == Result::<Seq<SynonymView>, SpecError>::Err(e),
    {
        proof {
            assert(vs.skip(i as int)[0] == vs[i as int]);
            assert(vs.skip(i as int).skip(1) =~= vs.skip(i + 1));
        }
        match Synonym::from_graph(&ss[i]) {
            Ok(x) => {
                out.push(x);
                proof {
                    if spec_synonyms_of(vs) is Ok {
                        assert(out@.map_values(|x: Synonym| x@) =~= out@.map_values(
                            |x: Synonym| x@,
                        ).take(out@.len() - 1) + seq![out@.last()@]);
                    }
                }
            },
            Err(e) => {
                return Err(e);
            },
        }
    }
    proof {
        assert(vs.skip(n as int) =~= Seq::<SynonymPvView>::empty());
        if spec_synonyms_of(vs) is Ok {
            assert(spec_synonyms_of(vs)->Ok_0 =~= out@.map_values(|x: Synonym| x@));
        }
    }
    Ok(out)
}

/// The parsed components of a metadata block that are shared by the three
/// entity kinds: the definition, the subset identifiers, the
/// cross-references and the synonyms.
pub struct MetaParts {
    pub def: Option<(String, Vec<Xref>)>,
    pub subsets: Vec<Ident>,
    pub xrefs: Vec<Xref>,
    pub synonyms: Vec<Synonym>,
}

#[verifier::ext_equal]
pub struct MetaPartsView {
    pub def: Option<(Seq<char>, Seq<XrefView>)>,
    pub subsets: Seq<IdentView>,
    pub xrefs: Seq<XrefView>,
    pub synonyms: Seq<SynonymView>,
}

impl View for MetaParts {
    type V = MetaPartsView;

    open spec fn view(&self) -> MetaPartsView {
        MetaPartsView {
            def: match &self.def {
                Some(d) => Some((d.0@, crate::ast::xrefs_view(&d.1))),
                None => None,
            },
            subsets: self.subsets@.map_values(|x: Ident| x@),
            xrefs: crate::ast::xrefs_view(&self.xrefs),
            synonyms: self.synonyms@.map_values(|x: Synonym| x@),
        }
    }
}

/// The shared parsed components of a metadata block; the first malformed
/// identifier or synonym aborts with its error, in the order definition,
/// subsets, cross-references, synonyms.
pub open spec fn spec_meta_parts(m: MetaView) -> Result<MetaPartsView, SpecError> {
    let def = match m.definition {
        Some(d) => match spec_xrefs_of(d.xrefs) {
            Ok(xs) => Ok(Some((d.val, xs))),
            Err(e) => Err(e),
        },
        None => Ok(None),
    };
    match def {
        Ok(def) => match spec_idents_of(m.subsets) {
            Ok(subsets) => match spec_xref_pvs_of(m.xrefs) {
                Ok(xrefs) => match spec_synonyms_of(m.synonyms) {
                    Ok(synonyms) => Ok(MetaPartsView { def, subsets, xrefs, synonyms }),
                    Err(e) => Err(e),
                },
                Err(e) => Err(e),
            },
            Err(e) => Err(e),
        },
        Err(e) => Err(e),
    }
}

/// Parses the shared components of a metadata block.
fn meta_parts(m: &Meta) -> (r: Result<MetaParts, Error>)
    ensures
        match r {
            Ok(p) => spec_meta_parts(m@) == Result::<MetaPartsView, SpecError>::Ok(p@),
            Err(e) => spec_meta_parts(m@) == Result::<MetaPartsView, SpecError>::Err(error_of(e@)),
        },
{
    let def: Option<(String, Vec<Xref>)> = match &m.definition {
        Some(d) => match xrefs_of(&d.xrefs) {
            Ok(xs) => Some((d.val.clone(), xs)),
            Err(e) => {
                return Err(e);
            },
        },
        None => None,
    };
    let subsets = match idents_of(&m.subsets) {
        Ok(v) => v,
        Err(e) => {
            return Err(e);
        },
    };
    let xrefs = match xref_pvs_of(&m.xrefs) {
        Ok(v) => v,
        Err(e) => {
            return Err(e);
        },
    };
    let synonyms = match synonyms_of(&m.synonyms) {
        Ok(v) => v,
        Err(e) => {
            return Err(e);
        },
    };
    let p = MetaParts { def, subsets, xrefs, synonyms };
    assert(p@ =~~= spec_meta_parts(m@)->Ok_0);
    Ok(p)
}


/// The term-clauses of a list of property value pairs.
pub open spec fn spec_term_bpvs(bs: Seq<BasicPvView>) -> Result<Seq<TermClauseView>, SpecError>
    decreases bs.len(),
{
    if bs.len() == 0 {
        Ok(Seq::empty())
    } else {
        match spec_term_bpv(bs[0]) {
            Ok(c) => match spec_term_bpvs(bs.skip(1)) {
                Ok(rest) => Ok(seq![c] + rest),
                Err(e) => Err(e),
            },
            Err(e) => Err(e),
        }
    }
}

/// Rebuilds the term clauses of a list of property value pairs.
fn term_bpvs(bs: &Vec<BasicPropertyValue>) -> (r: Result<Vec<TermClause>, Error>)
    ensures
        match r {
            Ok(out) => spec_term_bpvs(bs@.map_values(|x: BasicPropertyValue| x@)) == Result::<
                Seq<TermClauseView>,
                SpecError,
            >::Ok(out@.map_values(|x: TermClause| x@)),
            Err(e) => spec_term_bpvs(bs@.map_values(|x: BasicPropertyValue| x@)) == Result::<
                Seq<TermClauseView>,
                SpecError,
            >::Err(error_of(e@)),
        },
{
    let ghost vs = bs@.map_values(|x: BasicPropertyValue| x@);
    let mut out: Vec<TermClause> = Vec::new();
    let n = bs.len();
    proof {
        assert(vs.skip(0) =~= vs);
    }
    for i in 0..n
        invariant
            n == bs.len(),
            vs == bs@.map_values(|x: BasicPropertyValue| x@),
            spec_term_bpvs(vs) matches Ok(all) ==> all == out@.map_values(|x: TermClause| x@)
                + (match spec_term_bpvs(vs.skip(i as int)) {
                Ok(rest) => rest,
                Err(_) => Seq::empty(),
            }),
            spec_term_bpvs(vs) is Ok <==> spec_term_bpvs(vs.skip(i as int)) is Ok,
            spec_term_bpvs(vs) matches Err(e) ==> spec_term_bpvs(vs.skip(i as int)) == Result::<
                Seq<TermClauseView>,
                SpecError,
            >::Err(e),
    {
        proof {
            assert(vs.skip(i as int)[0] == vs[i as int]);
            assert(vs.skip(i as int).skip(1) =~= vs.skip(i + 1));
        }
        match term_bpv_clause(&bs[i]) {
            Ok(c) => {
                out.push(c);
                proof {
                    if spec_term_bpvs(vs) is Ok {
                        assert(out@.map_values(|x: TermClause| x@) =~= out@.map_values(
                            |x: TermClause| x@,
                        ).take(out@.len() - 1) + seq![out@.last()@]);
                    }
                }
            },
            Err(e) => {
                return Err(e);
            },
        }
    }
    proof {
        assert(vs.skip(n as int) =~= Seq::<BasicPvView>::empty());
        if spec_term_bpvs(vs) is Ok {
            assert(spec_term_bpvs(vs)->Ok_0 =~= out@.map_values(|x: TermClause| x@));
        }
    }
    Ok(out)
}

/// The term clauses a metadata block lays out: definition, comments,
/// subsets, cross-references, synonyms, property values, then the
/// deprecation flag.
pub open spec fn term_clauses_of(
    p: MetaPartsView,
    comments: Seq<Seq<char>>,
    bcls: Seq<TermClauseView>,
    deprecated: bool,
) -> Seq<TermClauseView> {
    (match p.def {
        Some(d) => seq![TermClauseView::Def { text: d.0, xrefs: d.1 }],
        None => Seq::empty(),
    }) + comments.map_values(|t: Seq<char>| TermClauseView::Comment { text: t })
        + p.subsets.map_values(|id: IdentView| TermClauseView::Subset { id })
        + p.xrefs.map_values(|x: XrefView| TermClauseView::Xref { xref: x })
        + p.synonyms.map_values(|s: SynonymView| TermClauseView::Synonym { syn: s }) + bcls + (
    if deprecated {
        seq![TermClauseView::IsObsolete { b: true }]
    } else {
        Seq::empty()
    })
}

/// The term clauses of a whole metadata block.
pub open spec fn spec_meta_term_clauses(m: MetaView) -> Result<Seq<TermClauseView>, SpecError> {
    match spec_meta_parts(m) {
        Ok(p) => match spec_term_bpvs(m.basic_property_values) {
            Ok(b) => Ok(term_clauses_of(p, m.comments, b, m.deprecated)),
            Err(e) => Err(e),
        },
        Err(e) => Err(e),
    }
}

/// Rebuilds the term clauses of a metadata block.
#[verifier::rlimit(80)]
fn meta_term_clauses(m: &Meta) -> (r: Result<Vec<TermClause>, Error>)
    ensures
        match r {
            Ok(out) => spec_meta_term_clauses(m@) == Result::<Seq<TermClauseView>, SpecError>::Ok(
                out@.map_values(|x: TermClause| x@),
            ),
            Err(e) => spec_meta_term_clauses(m@) == Result::<Seq<TermClauseView>, SpecError>::Err(
                error_of(e@),
            ),
        },
{
    let parts = match meta_parts(m) {
        Ok(p) => p,
        Err(e) => {
            return Err(e);
        },
    };
    let bcls = match term_bpvs(&m.basic_property_values) {
        Ok(b) => b,
        Err(e) => {
            return Err(e);
        },
    };
    let ghost pv = parts@;
    let ghost bv = bcls@.map_values(|x: TermClause| x@);
    let mut out: Vec<TermClause> = Vec::new();
    match parts.def {
        Some(d) => {
            out.push(TermClause::Def(d.0, d.1));
        },
        None => (),
    }
    let ghost after_def = out@.map_values(|x: TermClause| x@);
    proof {
        assert(after_def =~= (match pv.def {
            Some(d) => seq![TermClauseView::Def { text: d.0, xrefs: d.1 }],
            None => Seq::<TermClauseView>::empty(),
        }));
    }
    let nc = m.comments.len();
    for i in 0..nc
        invariant
            nc == m.comments.len(),
            out@.map_values(|x: TermClause| x@) == after_def + crate::model::strs_view(
                &m.comments,
            ).take(i as int).map_values(|t: Seq<char>| TermClauseView::Comment { text: t }),
    {
        let ghost prev = out@.map_values(|x: TermClause| x@);
        out.push(TermClause::Comment(m.comments[i].clone()));
        proof {
            assert(out@.map_values(|x: TermClause| x@) =~= prev + seq![out@.last()@]);
            assert(crate::model::strs_view(&m.comments)[i as int] == m.comments@[i as int]@);
            assert(crate::model::strs_view(&m.comments).take(i + 1).map_values(
                |t: Seq<char>| TermClauseView::Comment { text: t },
            ) =~= crate::model::strs_view(&m.comments).take(i as int).map_values(
                |t: Seq<char>| TermClauseView::Comment { text: t },
            ) + seq![out@.last()@]);
        }
    }
    let ghost after_comments = out@.map_values(|x: TermClause| x@);
    proof {
        assert(crate::model::strs_view(&m.comments).take(nc as int) =~= crate::model::strs_view(
            &m.comments,
        ));
    }
    let ns = parts.subsets.len();
    for i in 0..ns
        invariant
            ns == parts.subsets.len(),
            pv == parts@,
            out@.map_values(|x: TermClause| x@) == after_comments + pv.subsets.take(
                i as int,
            ).map_values(|id: IdentView| TermClauseView::Subset { id }),
    {
        let ghost prev = out@.map_values(|x: TermClause| x@);
        out.push(TermClause::Subset(parts.subsets[i].clone()));
        proof {
            assert(out@.map_values(|x: TermClause| x@) =~= prev + seq![out@.last()@]);
            assert(pv.subsets[i as int] == parts.subsets@[i as int]@);
            assert(pv.subsets.take(i + 1).map_values(
                |id: IdentView| TermClauseView::Subset { id },
            ) =~= pv.subsets.take(i as int).map_values(
                |id: IdentView| TermClauseView::Subset { id },
            ) + seq![out@.last()@]);
        }
    }
    let ghost after_subsets = out@.map_values(|x: TermClause| x@);
    proof {
        assert(pv.subsets.take(ns as int) =~= pv.subsets);
    }
    let nx = parts.xrefs.len();
    for i in 0..nx
        invariant
            nx == parts.xrefs.len(),
            pv == parts@,
            out@.map_values(|x: TermClause| x@) == after_subsets + pv.xrefs.take(
                i as int,
            ).map_values(|x: XrefView| TermClauseView::Xref { xref: x }),
    {
        let ghost prev = out@.map_values(|x: TermClause| x@);
        out.push(TermClause::Xref(parts.xrefs[i].clone()));
        proof {
            assert(out@.map_values(|x: TermClause| x@) =~= prev + seq![out@.last()@]);
            assert(pv.xrefs[i as int] == parts.xrefs@[i as int]@);
            assert(pv.xrefs.take(i + 1).map_values(
                |x: XrefView| TermClauseView::Xref { xref: x },
            ) =~= pv.xrefs.take(i as int).map_values(
                |x: XrefView| TermClauseView::Xref { xref: x },
            ) + seq![out@.last()@]);
        }
    }
    let ghost after_xrefs = out@.map_values(|x: TermClause| x@);
    proof {
        assert(pv.xrefs.take(nx as int) =~= pv.xrefs);
    }
    let nsy = parts.synonyms.len();
    for i in 0..nsy
        invariant
            nsy == parts.synonyms.len(),
            pv == parts@,
            out@.map_values(|x: TermClause| x@) == after_xrefs + pv.synonyms.take(
                i as int,
            ).map_values(|s: SynonymView| TermClauseView::Synonym { syn: s }),
    {
        let ghost prev = out@.map_values(|x: TermClause| x@);
        out.push(TermClause::Synonym(parts.synonyms[i].clone()));
        proof {
            assert(out@.map_values(|x: TermClause| x@) =~= prev + seq![out@.last()@]);
            assert(pv.synonyms[i as int] == parts.synonyms@[i as int]@);
            assert(pv.synonyms.take(i + 1).map_values(
                |s: SynonymView| TermClauseView::Synonym { syn: s },
            ) =~= pv.synonyms.take(i as int).map_values(
                |s: SynonymView| TermClauseView::Synonym { syn: s },
            ) + seq![out@.last()@]);
        }
    }
    let ghost after_synonyms = out@.map_values(|x: TermClause| x@);
    proof {
        assert(pv.synonyms.take(nsy as int) =~= pv.synonyms);
    }
    let nb = bcls.len();
    let mut bs = bcls;
    for i in 0..nb
        invariant
            nb == bv.len(),
            bs@.len() == bv.len() - i,
            bs@.map_values(|x: TermClause| x@) == bv.skip(i as int),
            out@.map_values(|x: TermClause| x@) == after_synonyms + bv.take(i as int),
    {
        let ghost prevb = bs@.map_values(|x: TermClause| x@);
        let c = bs.remove(0);
        proof {
            assert(c@ == prevb[0]);
            assert(bs@.map_values(|x: TermClause| x@) =~= prevb.skip(1));
            assert(prevb.skip(1) =~= bv.skip(i + 1));
        }
        let ghost prev = out@.map_values(|x: TermClause| x@);
        out.push(c);
        proof {
            assert(out@.map_values(|x: TermClause| x@) =~= prev + seq![out@.last()@]);
            assert(bv.take(i + 1) =~= bv.take(i as int) + seq![bv[i as int]]);
        }
    }
    proof {
        assert(bv.take(nb as int) =~= bv);
    }
    if m.deprecated {
        out.push(TermClause::IsObsolete(true));
    }
    proof {
        assert(out@.map_values(|x: TermClause| x@) =~= term_clauses_of(
            pv,
            crate::model::strs_view(&m.comments),
            bv,
            m@.deprecated,
        ));
    }
    Ok(out)
}


/// The typedef-clauses of a list of property value pairs.
pub open spec fn spec_typedef_bpvs(bs: Seq<BasicPvView>) -> Result<Seq<TypedefClauseView>, SpecError>
    decreases bs.len(),
{
    if bs.len() == 0 {
        Ok(Seq::empty())
    } else {
        match spec_typedef_bpv(bs[0]) {
            Ok(c) => match spec_typedef_bpvs(bs.skip(1)) {
                Ok(rest) => Ok(seq![c] + rest),
                Err(e) => Err(e),
            },
            Err(e) => Err(e),
        }
    }
}

/// Rebuilds the typedef clauses of a list of property value pairs.
fn typedef_bpvs(bs: &Vec<BasicPropertyValue>) -> (r: Result<Vec<TypedefClause>, Error>)
    ensures
        match r {
            Ok(out) => spec_typedef_bpvs(bs@.map_values(|x: BasicPropertyValue| x@)) == Result::<
                Seq<TypedefClauseView>,
                SpecError,
            >::Ok(out@.map_values(|x: TypedefClause| x@)),
            Err(e) => spec_typedef_bpvs(bs@.map_values(|x: BasicPropertyValue| x@)) == Result::<
                Seq<TypedefClauseView>,
                SpecError,
            >::Err(error_of(e@)),
        },
{
    let ghost vs = bs@.map_values(|x: BasicPropertyValue| x@);
    let mut out: Vec<TypedefClause> = Vec::new();
    let n = bs.len();
    proof {
        assert(vs.skip(0) =~= vs);
    }
    for i in 0..n
        invariant
            n == bs.len(),
            vs == bs@.map_values(|x: BasicPropertyValue| x@),
            spec_typedef_bpvs(vs) matches Ok(all) ==> all == out@.map_values(|x: TypedefClause| x@)
                + (match spec_typedef_bpvs(vs.skip(i as int)) {
                Ok(rest) => rest,
                Err(_) => Seq::empty(),
            }),
            spec_typedef_bpvs(vs) is Ok <==> spec_typedef_bpvs(vs.skip(i as int)) is Ok,
            spec_typedef_bpvs(vs) matches Err(e) ==> spec_typedef_bpvs(vs.skip(i as int)) == Result::<
                Seq<TypedefClauseView>,
                SpecError,
            >::Err(e),
    {
        proof {
            assert(vs.skip(i as int)[0] == vs[i as int]);
            assert(vs.skip(i as int).skip(1) =~= vs.skip(i + 1));
        }
        match typedef_bpv_clause(&bs[i]) {
            Ok(c) => {
                out.push(c);
                proof {
                    if spec_typedef_bpvs(vs) is Ok {
                        assert(out@.map_values(|x: TypedefClause| x@) =~= out@.map_values(
                            |x: TypedefClause| x@,
                        ).take(out@.len() - 1) + seq![out@.last()@]);
                    }
                }
            },
            Err(e) => {
                return Err(e);
            },
        }
    }
    proof {
        assert(vs.skip(n as int) =~= Seq::<BasicPvView>::empty());
        if spec_typedef_bpvs(vs) is Ok {
            assert(spec_typedef_bpvs(vs)->Ok_0 =~= out@.map_values(|x: TypedefClause| x@));
        }
    }
    Ok(out)
}

/// The typedef clauses a metadata block lays out: definition, comments,
/// subsets, cross-references, synonyms, property values, then the
/// deprecation flag.
pub open spec fn typedef_clauses_of(
    p: MetaPartsView,
    comments: Seq<Seq<char>>,
    bcls: Seq<TypedefClauseView>,
    deprecated: bool,
) -> Seq<TypedefClauseView> {
    (match p.def {
        Some(d) => seq![TypedefClauseView::Def { text: d.0, xrefs: d.1 }],
        None => Seq::empty(),
    }) + comments.map_values(|t: Seq<char>| TypedefClauseView::Comment { text: t })
        + p.subsets.map_values(|id: IdentView| TypedefClauseView::Subset { id })
        + p.xrefs.map_values(|x: XrefView| TypedefClauseView::Xref { xref: x })
        + p.synonyms.map_values(|s: SynonymView| TypedefClauseView::Synonym { syn: s }) + bcls + (
    if deprecated {
        seq![TypedefClauseView::IsObsolete { b: true }]
    } else {
        Seq::empty()
    })
}

/// The typedef clauses of a whole metadata block.
pub open spec fn spec_meta_typedef_clauses(m: MetaView) -> Result<Seq<TypedefClauseView>, SpecError> {
    match spec_meta_parts(m) {
        Ok(p) => match spec_typedef_bpvs(m.basic_property_values) {
            Ok(b) => Ok(typedef_clauses_of(p, m.comments, b, m.deprecated)),
            Err(e) => Err(e),
        },
        Err(e) => Err(e),
    }
}

/// Rebuilds the typedef clauses of a metadata block.
#[verifier::rlimit(80)]
fn meta_typedef_clauses(m: &Meta) -> (r: Result<Vec<TypedefClause>, Error>)
    ensures
        match r {
            Ok(out) => spec_meta_typedef_clauses(m@) == Result::<Seq<TypedefClauseView>, SpecError>::Ok(
                out@.map_values(|x: TypedefClause| x@),
            ),
            Err(e) => spec_meta_typedef_clauses(m@) == Result::<Seq<TypedefClauseView>, SpecError>::Err(
                error_of(e@),
            ),
        },
{
    let parts = match meta_parts(m) {
        Ok(p) => p,
        Err(e) => {
            return Err(e);
        },
    };
    let bcls = match typedef_bpvs(&m.basic_property_values) {
        Ok(b) => b,
        Err(e) => {
            return Err(e);
        },
    };
    let ghost pv = parts@;
    let ghost bv = bcls@.map_values(|x: TypedefClause| x@);
    let mut out: Vec<TypedefClause> = Vec::new();
    match parts.def {
        Some(d) => {
            out.push(TypedefClause::Def(d.0, d.1));
        },
        None => (),
    }
    let ghost after_def = out@.map_values(|x: TypedefClause| x@);
    proof {
        assert(after_def =~= (match pv.def {
            Some(d) => seq![TypedefClauseView::Def { text: d.0, xrefs: d.1 }],
            None => Seq::<TypedefClauseView>::empty(),
        }));
    }
    let nc = m.comments.len();
    for i in 0..nc
        invariant
            nc == m.comments.len(),
            out@.map_values(|x: TypedefClause| x@) == after_def + crate::model::strs_view(
                &m.comments,
            ).take(i as int).map_values(|t: Seq<char>| TypedefClauseView::Comment { text: t }),
    {
        let ghost prev = out@.map_values(|x: TypedefClause| x@);
        out.push(TypedefClause::Comment(m.comments[i].clone()));
        proof {
            assert(out@.map_values(|x: TypedefClause| x@) =~= prev + seq![out@.last()@]);
            assert(crate::model::strs_view(&m.comments)[i as int] == m.comments@[i as int]@);
            assert(crate::model::strs_view(&m.comments).take(i + 1).map_values(
                |t: Seq<char>| TypedefClauseView::Comment { text: t },
            ) =~= crate::model::strs_view(&m.comments).take(i as int).map_values(
                |t: Seq<char>| TypedefClauseView::Comment { text: t },
            ) + seq![out@.last()@]);
        }
    }
    let ghost after_comments = out@.map_values(|x: TypedefClause| x@);
    proof {
        assert(crate::model::strs_view(&m.comments).take(nc as int) =~= crate::model::strs_view(
            &m.comments,
        ));
    }
    let ns = parts.subsets.len();
    for i in 0..ns
        invariant
            ns == parts.subsets.len(),
            pv == parts@,
            out@.map_values(|x: TypedefClause| x@) == after_comments + pv.subsets.take(
                i as int,
            ).map_values(|id: IdentView| TypedefClauseView::Subset { id }),
    {
        let ghost prev = out@.map_values(|x: TypedefClause| x@);
        out.push(TypedefClause::Subset(parts.subsets[i].clone()));
        proof {
            assert(out@.map_values(|x: TypedefClause| x@) =~= prev + seq![out@.last()@]);
            assert(pv.subsets[i as int] == parts.subsets@[i as int]@);
            assert(pv.subsets.take(i + 1).map_values(
                |id: IdentView| TypedefClauseView::Subset { id },
            ) =~= pv.subsets.take(i as int).map_values(
                |id: IdentView| TypedefClauseView::Subset { id },
            ) + seq![out@.last()@]);
        }
    }
    let ghost after_subsets = out@.map_values(|x: TypedefClause| x@);
    proof {
        assert(pv.subsets.take(ns as int) =~= pv.subsets);
    }
    let nx = parts.xrefs.len();
    for i in 0..nx
        invariant
            nx == parts.xrefs.len(),
            pv == parts@,
            out@.map_values(|x: TypedefClause| x@) == after_subsets + pv.xrefs.take(
                i as int,
            ).map_values(|x: XrefView| TypedefClauseView::Xref { xref: x }),
    {
        let ghost prev = out@.map_values(|x: TypedefClause| x@);
        out.push(TypedefClause::Xref(parts.xrefs[i].clone()));
        proof {
            assert(out@.map_values(|x: TypedefClause| x@) =~= prev + seq![out@.last()@]);
            assert(pv.xrefs[i as int] == parts.xrefs@[i as int]@);
            assert(pv.xrefs.take(i + 1).map_values(
                |x: XrefView| TypedefClauseView::Xref { xref: x },
            ) =~= pv.xrefs.take(i as int).map_values(
                |x: XrefView| TypedefClauseView::Xref { xref: x },
            ) + seq![out@.last()@]);
        }
    }
    let ghost after_xrefs = out@.map_values(|x: TypedefClause| x@);
    proof {
        assert(pv.xrefs.take(nx as int) =~= pv.xrefs);
    }
    let nsy = parts.synonyms.len();
    for i in 0..nsy
        invariant
            nsy == parts.synonyms.len(),
            pv == parts@,
            out@.map_values(|x: TypedefClause| x@) == after_xrefs + pv.synonyms.take(
                i as int,
            ).map_values(|s: SynonymView| TypedefClauseView::Synonym { syn: s }),
    {
        let ghost prev = out@.map_values(|x: TypedefClause| x@);
        out.push(TypedefClause::Synonym(parts.synonyms[i].clone()));
        proof {
            assert(out@.map_values(|x: TypedefClause| x@) =~= prev + seq![out@.last()@]);
            assert(pv.synonyms[i as int] == parts.synonyms@[i as int]@);
            assert(pv.synonyms.take(i + 1).map_values(
                |s: SynonymView| TypedefClauseView::Synonym { syn: s },
            ) =~= pv.synonyms.take(i as int).map_values(
                |s: SynonymView| TypedefClauseView::Synonym { syn: s },
            ) + seq![out@.last()@]);
        }
    }
    let ghost after_synonyms = out@.map_values(|x: TypedefClause| x@);
    proof {
        assert(pv.synonyms.take(nsy as int) =~= pv.synonyms);
    }
    let nb = bcls.len();
    let mut bs = bcls;
    for i in 0..nb
        invariant
            nb == bv.len(),
            bs@.len() == bv.len() - i,
            bs@.map_values(|x: TypedefClause| x@) == bv.skip(i as int),
            out@.map_values(|x: TypedefClause| x@) == after_synonyms + bv.take(i as int),
    {
        let ghost prevb = bs@.map_values(|x: TypedefClause| x@);
        let c = bs.remove(0);
        proof {
            assert(c@ == prevb[0]);
            assert(bs@.map_values(|x: TypedefClause| x@) =~= prevb.skip(1));
            assert(prevb.skip(1) =~= bv.skip(i + 1));
        }
        let ghost prev = out@.map_values(|x: TypedefClause| x@);
        out.push(c);
        proof {
            assert(out@.map_values(|x: TypedefClause| x@) =~= prev + seq![out@.last()@]);
            assert(bv.take(i + 1) =~= bv.take(i as int) + seq![bv[i as int]]);
        }
    }
    proof {
        assert(bv.take(nb as int) =~= bv);
    }
    if m.deprecated {
        out.push(TypedefClause::IsObsolete(true));
    }
    proof {
        assert(out@.map_values(|x: TypedefClause| x@) =~= typedef_clauses_of(
            pv,
            crate::model::strs_view(&m.comments),
            bv,
            m@.deprecated,
        ));
    }
    Ok(out)
}


/// The instance-clauses of a list of property value pairs.
pub open spec fn spec_instance_bpvs(bs: Seq<BasicPvView>) -> Result<Seq<InstanceClauseView>, SpecError>
    decreases bs.len(),
{
    if bs.len() == 0 {
        Ok(Seq::empty())
    } else {
        match spec_instance_bpv(bs[0]) {
            Ok(c) => match spec_instance_bpvs(bs.skip(1)) {
                Ok(rest) => Ok(seq![c] + rest),
                Err(e) => Err(e),
            },
            Err(e) => Err(e),
        }
    }
}

/// Rebuilds the instance clauses of a list of property value pairs.
fn instance_bpvs(bs: &Vec<BasicPropertyValue>) -> (r: Result<Vec<InstanceClause>, Error>)
    ensures
        match r {
            Ok(out) => spec_instance_bpvs(bs@.map_values(|x: BasicPropertyValue| x@)) == Result::<
                Seq<InstanceClauseView>,
                SpecError,
            >::Ok(out@.map_values(|x: InstanceClause| x@)),
            Err(e) => spec_instance_bpvs(bs@.map_values(|x: BasicPropertyValue| x@)) == Result::<
                Seq<InstanceClauseView>,
                SpecError,
            >::Err(error_of(e@)),
        },
{
    let ghost vs = bs@.map_values(|x: BasicPropertyValue| x@);
    let mut out: Vec<InstanceClause> = Vec::new();
    let n = bs.len();
    proof {
        assert(vs.skip(0) =~= vs);
    }
    for i in 0..n
        invariant
            n == bs.len(),
            vs == bs@.map_values(|x: BasicPropertyValue| x@),
            spec_instance_bpvs(vs) matches Ok(all) ==> all == out@.map_values(|x: InstanceClause| x@)
                + (match spec_instance_bpvs(vs.skip(i as int)) {
                Ok(rest) => rest,
                Err(_) => Seq::empty(),
            }),
            spec_instance_bpvs(vs) is Ok <==> spec_instance_bpvs(vs.skip(i as int)) is Ok,
            spec_instance_bpvs(vs) matches Err(e) ==> spec_instance_bpvs(vs.skip(i as int)) == Result::<
                Seq<InstanceClauseView>,
                SpecError,
            >::Err(e),
    {
        proof {
            assert(vs.skip(i as int)[0] == vs[i as int]);
            assert(vs.skip(i as int).skip(1) =~= vs.skip(i + 1));
        }
        match instance_bpv_clause(&bs[i]) {
            Ok(c) => {
                out.push(c);
                proof {
                    if spec_instance_bpvs(vs) is Ok {
                        assert(out@.map_values(|x: InstanceClause| x@) =~= out@.map_values(
                            |x: InstanceClause| x@,
                        ).take(out@.len() - 1) + seq![out@.last()@]);
                    }
                }
            },
            Err(e) => {
                return Err(e);
            },
        }
    }
    proof {
        assert(vs.skip(n as int) =~= Seq::<BasicPvView>::empty());
        if spec_instance_bpvs(vs) is Ok {
            assert(spec_instance_bpvs(vs)->Ok_0 =~= out@.map_values(|x: InstanceClause| x@));
        }
    }
    Ok(out)
}

/// The instance clauses a metadata block lays out: definition, comments,
/// subsets, cross-references, synonyms, property values, then the
/// deprecation flag.
pub open spec fn instance_clauses_of(
    p: MetaPartsView,
    comments: Seq<Seq<char>>,
    bcls: Seq<InstanceClauseView>,
    deprecated: bool,
) -> Seq<InstanceClauseView> {
    (match p.def {
        Some(d) => seq![InstanceClauseView::Def { text: d.0, xrefs: d.1 }],
        None => Seq::empty(),
    }) + comments.map_values(|t: Seq<char>| InstanceClauseView::Comment { text: t })
        + p.subsets.map_values(|id: IdentView| InstanceClauseView::Subset { id })
        + p.xrefs.map_values(|x: XrefView| InstanceClauseView::Xref { xref: x })
        + p.synonyms.map_values(|s: SynonymView| InstanceClauseView::Synonym { syn: s }) + bcls + (
    if deprecated {
        seq![InstanceClauseView::IsObsolete { b: true }]
    } else {
        Seq::empty()
    })
}

/// The instance clauses of a whole metadata block.
pub open spec fn spec_meta_instance_clauses(m: MetaView) -> Result<Seq<InstanceClauseView>, SpecError> {
    match spec_meta_parts(m) {
        Ok(p) => match spec_instance_bpvs(m.basic_property_values) {
            Ok(b) => Ok(instance_clauses_of(p, m.comments, b, m.deprecated)),
            Err(e) => Err(e),
        },
        Err(e) => Err(e),
    }
}

/// Rebuilds the instance clauses of a metadata block.
#[verifier::rlimit(80)]
fn meta_instance_clauses(m: &Meta) -> (r: Result<Vec<InstanceClause>, Error>)
    ensures
        match r {
            Ok(out) => spec_meta_instance_clauses(m@) == Result::<Seq<InstanceClauseView>, SpecError>::Ok(
                out@.map_values(|x: InstanceClause| x@),
            ),
            Err(e) => spec_meta_instance_clauses(m@) == Result::<Seq<InstanceClauseView>, SpecError>::Err(
                error_of(e@),
            ),
        },
{
    let parts = match meta_parts(m) {
        Ok(p) => p,
        Err(e) => {
            return Err(e);
        },
    };
    let bcls = match instance_bpvs(&m.basic_property_values) {
        Ok(b) => b,
        Err(e) => {
            return Err(e);
        },
    };
    let ghost pv = parts@;
    let ghost bv = bcls@.map_values(|x: InstanceClause| x@);
    let mut out: Vec<InstanceClause> = Vec::new();
    match parts.def {
        Some(d) => {
            out.push(InstanceClause::Def(d.0, d.1));
        },
        None => (),
    }
    let ghost after_def = out@.map_values(|x: InstanceClause| x@);
    proof {
        assert(after_def =~= (match pv.def {
            Some(d) => seq![InstanceClauseView::Def { text: d.0, xrefs: d.1 }],
            None => Seq::<InstanceClauseView>::empty(),
        }));
    }
    let nc = m.comments.len();
    for i in 0..nc
        invariant
            nc == m.comments.len(),
            out@.map_values(|x: InstanceClause| x@) == after_def + crate::model::strs_view(
                &m.comments,
            ).take(i as int).map_values(|t: Seq<char>| InstanceClauseView::Comment { text: t }),
    {
        let ghost prev = out@.map_values(|x: InstanceClause| x@);
        out.push(InstanceClause::Comment(m.comments[i].clone()));
        proof {
            assert(out@.map_values(|x: InstanceClause| x@) =~= prev + seq![out@.last()@]);
            assert(crate::model::strs_view(&m.comments)[i as int] == m.comments@[i as int]@);
            assert(crate::model::strs_view(&m.comments).take(i + 1).map_values(
                |t: Seq<char>| InstanceClauseView::Comment { text: t },
            ) =~= crate::model::strs_view(&m.comments).take(i as int).map_values(
                |t: Seq<char>| InstanceClauseView::Comment { text: t },
            ) + seq![out@.last()@]);
        }
    }
    let ghost after_comments = out@.map_values(|x: InstanceClause| x@);
    proof {
        assert(crate::model::strs_view(&m.comments).take(nc as int) =~= crate::model::strs_view(
            &m.comments,
        ));
    }
    let ns = parts.subsets.len();
    for i in 0..ns
        invariant
            ns == parts.subsets.len(),
            pv == parts@,
            out@.map_values(|x: InstanceClause| x@) == after_comments + pv.subsets.take(
                i as int,
            ).map_values(|id: IdentView| InstanceClauseView::Subset { id }),
    {
        let ghost prev = out@.map_values(|x: InstanceClause| x@);
        out.push(InstanceClause::Subset(parts.subsets[i].clone()));
        proof {
            assert(out@.map_values(|x: InstanceClause| x@) =~= prev + seq![out@.last()@]);
            assert(pv.subsets[i as int] == parts.subsets@[i as int]@);
            assert(pv.subsets.take(i + 1).map_values(
                |id: IdentView| InstanceClauseView::Subset { id },
            ) =~= pv.subsets.take(i as int).map_values(
                |id: IdentView| InstanceClauseView::Subset { id },
            ) + seq![out@.last()@]);
        }
    }
    let ghost after_subsets = out@.map_values(|x: InstanceClause| x@);
    proof {
        assert(pv.subsets.take(ns as int) =~= pv.subsets);
    }
    let nx = parts.xrefs.len();
    for i in 0..nx
        invariant
            nx == parts.xrefs.len(),
            pv == parts@,
            out@.map_values(|x: InstanceClause| x@) == after_subsets + pv.xrefs.take(
                i as int,
            ).map_values(|x: XrefView| InstanceClauseView::Xref { xref: x }),
    {
        let ghost prev = out@.map_values(|x: InstanceClause| x@);
        out.push(InstanceClause::Xref(parts.xrefs[i].clone()));
        proof {
            assert(out@.map_values(|x: InstanceClause| x@) =~= prev + seq![out@.last()@]);
            assert(pv.xrefs[i as int] == parts.xrefs@[i as int]@);
            assert(pv.xrefs.take(i + 1).map_values(
                |x: XrefView| InstanceClauseView::Xref { xref: x },
            ) =~= pv.xrefs.take(i as int).map_values(
                |x: XrefView| InstanceClauseView::Xref { xref: x },
            ) + seq![out@.last()@]);
        }
    }
    let ghost after_xrefs = out@.map_values(|x: InstanceClause| x@);
    proof {
        assert(pv.xrefs.take(nx as int) =~= pv.xrefs);
    }
    let nsy = parts.synonyms.len();
    for i in 0..nsy
        invariant
            nsy == parts.synonyms.len(),
            pv == parts@,
            out@.map_values(|x: InstanceClause| x@) == after_xrefs + pv.synonyms.take(
                i as int,
            ).map_values(|s: SynonymView| InstanceClauseView::Synonym { syn: s }),
    {
        let ghost prev = out@.map_values(|x: InstanceClause| x@);
        out.push(InstanceClause::Synonym(parts.synonyms[i].clone()));
        proof {
            assert(out@.map_values(|x: InstanceClause| x@) =~= prev + seq![out@.last()@]);
            assert(pv.synonyms[i as int] == parts.synonyms@[i as int]@);
            assert(pv.synonyms.take(i + 1).map_values(
                |s: SynonymView| InstanceClauseView::Synonym { syn: s },
            ) =~= pv.synonyms.take(i as int).map_values(
                |s: SynonymView| InstanceClauseView::Synonym { syn: s },
            ) + seq![out@.last()@]);
        }
    }
    let ghost after_synonyms = out@.map_values(|x: InstanceClause| x@);
    proof {
        assert(pv.synonyms.take(nsy as int) =~= pv.synonyms);
    }
    let nb = bcls.len();
    let mut bs = bcls;
    for i in 0..nb
        invariant
            nb == bv.len(),
            bs@.len() == bv.len() - i,
            bs@.map_values(|x: InstanceClause| x@) == bv.skip(i as int),
            out@.map_values(|x: InstanceClause| x@) == after_synonyms + bv.take(i as int),
    {
        let ghost prevb = bs@.map_values(|x: InstanceClause| x@);
        let c = bs.remove(0);
        proof {
            assert(c@ == prevb[0]);
            assert(bs@.map_values(|x: InstanceClause| x@) =~= prevb.skip(1));
            assert(prevb.skip(1) =~= bv.skip(i + 1));
        }
        let ghost prev = out@.map_values(|x: InstanceClause| x@);
        out.push(c);
        proof {
            assert(out@.map_values(|x: InstanceClause| x@) =~= prev + seq![out@.last()@]);
            assert(bv.take(i + 1) =~= bv.take(i as int) + seq![bv[i as int]]);
        }
    }
    proof {
        assert(bv.take(nb as int) =~= bv);
    }
    if m.deprecated {
        out.push(InstanceClause::IsObsolete(true));
    }
    proof {
        assert(out@.map_values(|x: InstanceClause| x@) =~= instance_clauses_of(
            pv,
            crate::model::strs_view(&m.comments),
            bv,
            m@.deprecated,
        ));
    }
    Ok(out)
}


// ---------------------------------------------------------------------
// Nodes to frames
// ---------------------------------------------------------------------

/// The frame one node determines: a node without a type contributes no
/// frame; otherwise its identifier must parse, a label becomes a Name
/// clause, and the metadata becomes the frame's remaining clauses.
pub open spec fn spec_node_frame(n: NodeView) -> Result<Option<EntityFrameView>, SpecError> {
    match spec_ident(n.id) {
        Err(e) => Err(e),
        Ok(id) => match n.ty {
            None => Ok(None),
            Some(NodeType::Class) => {
                let name_cls = match n.label {
                    Some(l) => seq![TermClauseView::Name { name: l }],
                    None => Seq::<TermClauseView>::empty(),
                };
                let mcls = match n.meta {
                    Some(m) => spec_meta_term_clauses(m),
                    None => Ok(Seq::<TermClauseView>::empty()),
                };
                match mcls {
                    Ok(mc) => Ok(
                        Some(
                            EntityFrameView::Term {
                                frame: TermFrameView { id, clauses: name_cls + mc },
                            },
                        ),
                    ),
                    Err(e) => Err(e),
                }
            },
            Some(NodeType::Property) => {
                let name_cls = match n.label {
                    Some(l) => seq![TypedefClauseView::Name { name: l }],
                    None => Seq::<TypedefClauseView>::empty(),
                };
                let mcls = match n.meta {
                    Some(m) => spec_meta_typedef_clauses(m),
                    None => Ok(Seq::<TypedefClauseView>::empty()),
                };
                match mcls {
                    Ok(mc) => Ok(
                        Some(
                            EntityFrameView::Typedef {
                                frame: TypedefFrameView { id, clauses: name_cls + mc },
                            },
                        ),
                    ),
                    Err(e) => Err(e),
                }
            },
            Some(NodeType::Individual) => {
                let name_cls = match n.label {
                    Some(l) => seq![InstanceClauseView::Name { name: l }],
                    None => Seq::<InstanceClauseView>::empty(),
                };
                let mcls = match n.meta {
                    Some(m) => spec_meta_instance_clauses(m),
                    None => Ok(Seq::<InstanceClauseView>::empty()),
                };
                match mcls {
                    Ok(mc) => Ok(
                        Some(
                            EntityFrameView::Instance {
                                frame: InstanceFrameView { id, clauses: name_cls + mc },
                            },
                        ),
                    ),
                    Err(e) => Err(e),
                }
            },
        },
    }
}

/// Rebuilds the entity frame of one node.
pub fn node_frame(n: &Node) -> (r: Result<Option<EntityFrame>, Error>)
    ensures
        match r {
            Ok(of) => spec_node_frame(n@) == Result::<Option<EntityFrameView>, SpecError>::Ok(
                match of {
                    Some(f) => Some(f@),
                    None => None,
                },
            ),
            Err(e) => spec_node_frame(n@) == Result::<Option<EntityFrameView>, SpecError>::Err(
                error_of(e@),
            ),
        },
{
    let id = match ident_of(n.id.as_str()) {
        Ok(id) => id,
        Err(e) => {
            return Err(e);
        },
    };
    match n.ty {
        None => Ok(None),
        Some(NodeType::Class) => {
            let mut clauses: Vec<TermClause> = Vec::new();
            match &n.label {
                Some(l) => clauses.push(TermClause::Name(l.clone())),
                None => (),
            }
            let ghost name_part = clauses@.map_values(|c: TermClause| c@);
            match &n.meta {
                Some(m) => {
                    let mut mc = match meta_term_clauses(m) {
                        Ok(mc) => mc,
                        Err(e) => {
                            return Err(e);
                        },
                    };
                    let ghost mcv = mc@.map_values(|c: TermClause| c@);
                    clauses.append(&mut mc);
                    proof {
                        assert(clauses@.map_values(|c: TermClause| c@) =~= name_part + mcv);
                    }
                },
                None => (),
            }
            let f = TermFrame { id, clauses };
            proof {
                assert(name_part =~= (match n@.label {
                    Some(l) => seq![TermClauseView::Name { name: l }],
                    None => Seq::<TermClauseView>::empty(),
                }));
                assert(f@.clauses =~= name_part + (match n@.meta {
                    Some(m) => spec_meta_term_clauses(m)->Ok_0,
                    None => Seq::<TermClauseView>::empty(),
                }));
                assert(Result::<Option<EntityFrameView>, SpecError>::Ok(
                    Some(EntityFrameView::Term { frame: f@ }),
                ) =~~= spec_node_frame(n@));
            }
            Ok(Some(EntityFrame::Term(f)))
        },
        Some(NodeType::Property) => {
            let mut clauses: Vec<TypedefClause> = Vec::new();
            match &n.label {
                Some(l) => clauses.push(TypedefClause::Name(l.clone())),
                None => (),
            }
            let ghost name_part = clauses@.map_values(|c: TypedefClause| c@);
            match &n.meta {
                Some(m) => {
                    let mut mc = match meta_typedef_clauses(m) {
                        Ok(mc) => mc,
                        Err(e) => {
                            return Err(e);
                        },
                    };
                    let ghost mcv = mc@.map_values(|c: TypedefClause| c@);
                    clauses.append(&mut mc);
                    proof {
                        assert(clauses@.map_values(|c: TypedefClause| c@) =~= name_part + mcv);
                    }
                },
                None => (),
            }
            let f = TypedefFrame { id, clauses };
            proof {
                assert(name_part =~= (match n@.label {
                    Some(l) => seq![TypedefClauseView::Name { name: l }],
                    None => Seq::<TypedefClauseView>::empty(),
                }));
                assert(f@.clauses =~= name_part + (match n@.meta {
                    Some(m) => spec_meta_typedef_clauses(m)->Ok_0,
                    None => Seq::<TypedefClauseView>::empty(),
                }));
                assert(Result::<Option<EntityFrameView>, SpecError>::Ok(
                    Some(EntityFrameView::Typedef { frame: f@ }),
                ) =~~= spec_node_frame(n@));
            }
            Ok(Some(EntityFrame::Typedef(f)))
        },
        Some(NodeType::Individual) => {
            let mut clauses: Vec<InstanceClause> = Vec::new();
            match &n.label {
                Some(l) => clauses.push(InstanceClause::Name(l.clone())),
                None => (),
            }
            let ghost name_part = clauses@.map_values(|c: InstanceClause| c@);
            match &n.meta {
                Some(m) => {
                    let mut mc = match meta_instance_clauses(m) {
                        Ok(mc) => mc,
                        Err(e) => {
                            return Err(e);
                        },
                    };
                    let ghost mcv = mc@.map_values(|c: InstanceClause| c@);
                    clauses.append(&mut mc);
                    proof {
                        assert(clauses@.map_values(|c: InstanceClause| c@) =~= name_part + mcv);
                    }
                },
                None => (),
            }
            let f = InstanceFrame { id, clauses };
            proof {
                assert(name_part =~= (match n@.label {
                    Some(l) => seq![InstanceClauseView::Name { name: l }],
                    None => Seq::<InstanceClauseView>::empty(),
                }));
                assert(f@.clauses =~= name_part + (match n@.meta {
                    Some(m) => spec_meta_instance_clauses(m)->Ok_0,
                    None => Seq::<InstanceClauseView>::empty(),
                }));
                assert(Result::<Option<EntityFrameView>, SpecError>::Ok(
                    Some(EntityFrameView::Instance { frame: f@ }),
                ) =~~= spec_node_frame(n@));
            }
            Ok(Some(EntityFrame::Instance(f)))
        },
    }
}

// ---------------------------------------------------------------------
// The frame table
// ---------------------------------------------------------------------

/// View of a list of entity frames.
pub open spec fn frames_view(v: &Vec<EntityFrame>) -> Seq<EntityFrameView> {
    v@.map_values(|f: EntityFrame| f@)
}

/// Index of the first frame with the given identifier, or `-1`.
pub open spec fn table_index(t: Seq<EntityFrameView>, id: IdentView) -> int
    decreases t.len(),
{
    if t.len() == 0 {
        -1
    } else if t[0].entity_id() == id {
        0
    } else {
        let r = table_index(t.skip(1), id);
        if r < 0 {
            -1
        } else {
            r + 1
        }
    }
}

/// The table with `f` bound under its identifier: an earlier frame with
/// the same identifier is replaced in place, otherwise `f` is appended.
pub open spec fn table_insert(t: Seq<EntityFrameView>, f: EntityFrameView) -> Seq<
    EntityFrameView,
> {
    let i = table_index(t, f.entity_id());
    if i < 0 {
        t.push(f)
    } else {
        t.update(i, f)
    }
}

/// Finds the first frame with the given identifier.
fn find_frame(frames: &Vec<EntityFrame>, id: &Ident) -> (r: Option<usize>)
    ensures
        match r {
            Some(i) => table_index(frames_view(frames), id@) == i && i < frames@.len(),
            None => table_index(frames_view(frames), id@) == -1,
        },
{
    let ghost t = frames_view(frames);
    let n = frames.len();
    proof {
        assert(t.skip(0) =~= t);
    }
    for i in 0..n
        invariant
            n == frames.len(),
            t == frames_view(frames),
            table_index(t, id@) == (if table_index(t.skip(i as int), id@) < 0 {
                -1
            } else {
                table_index(t.skip(i as int), id@) + i
            }),
            forall|j: int| 0 <= j < i ==> t[j].entity_id() != id@,
    {
        proof {
            assert(t.skip(i as int)[0] == t[i as int]);
        }
        if frames[i].entity_id().same_as(id) {
            return Some(i);
        }
        proof {
            assert(t.skip(i as int).skip(1) =~= t.skip(i + 1));
        }
    }
    proof {
        assert(t.skip(n as int) =~= Seq::<EntityFrameView>::empty());
    }
    None
}


// ---------------------------------------------------------------------
// The node pass
// ---------------------------------------------------------------------

/// The frame table after the node pass: each node's frame is inserted
/// under its parsed identifier (a later node with the same identifier
/// replaces the earlier frame); nodes without a type contribute nothing.
pub open spec fn spec_nodes_pass(t: Seq<EntityFrameView>, nodes: Seq<NodeView>) -> Result<
    Seq<EntityFrameView>,
    SpecError,
>
    decreases nodes.len(),
{
    if nodes.len() == 0 {
        Ok(t)
    } else {
        match spec_node_frame(nodes[0]) {
            Ok(Some(f)) => spec_nodes_pass(table_insert(t, f), nodes.skip(1)),
            Ok(None) => spec_nodes_pass(t, nodes.skip(1)),
            Err(e) => Err(e),
        }
    }
}

/// Inserts one frame into the table, replacing a frame with the same
/// identifier.
fn insert_frame(t: Vec<EntityFrame>, f: EntityFrame) -> (r: Vec<EntityFrame>)
    ensures
        frames_view(&r) == table_insert(frames_view(&t), f@),
{
    let ghost tv = frames_view(&t);
    let mut t = t;
    match find_frame(&t, f.entity_id()) {
        Some(i) => {
            t.set(i, f);
            proof {
                assert(frames_view(&t) =~= tv.update(table_index(tv, f@.entity_id()), f@));
            }
            t
        },
        None => {
            t.push(f);
            proof {
                assert(frames_view(&t) =~= tv.push(f@));
            }
            t
        },
    }
}

/// Runs the node pass.
fn nodes_pass(t_in: Vec<EntityFrame>, nodes: &Vec<Node>) -> (r: Result<Vec<EntityFrame>, Error>)
    ensures
        match r {
            Ok(t2) => spec_nodes_pass(frames_view(&t_in), nodes@.map_values(|x: Node| x@))
                == Result::<Seq<EntityFrameView>, SpecError>::Ok(frames_view(&t2)),
            Err(e) => spec_nodes_pass(frames_view(&t_in), nodes@.map_values(|x: Node| x@))
                == Result::<Seq<EntityFrameView>, SpecError>::Err(error_of(e@)),
        },
{
    let ghost t0 = frames_view(&t_in);
    let ghost nv = nodes@.map_values(|x: Node| x@);
    let mut t = t_in;
    let n = nodes.len();
    proof {
        assert(nv.skip(0) =~= nv);
    }
    for i in 0..n
        invariant
            n == nodes.len(),
            nv.len() == n,
            t0 == frames_view(&t_in),
            nv == nodes@.map_values(|x: Node| x@),
            spec_nodes_pass(t0, nv) == spec_nodes_pass(frames_view(&t), nv.skip(i as int)),
    {
        proof {
            assert(nv.skip(i as int)[0] == nv[i as int]);
            assert(nv[i as int] == nodes[i as int]@);
            assert(nv.skip(i as int).skip(1) =~= nv.skip(i + 1));
        }
        match node_frame(&nodes[i]) {
            Ok(Some(f)) => {
                t = insert_frame(t, f);
            },
            Ok(None) => (),
            Err(e) => {
                return Err(e);
            },
        }
    }
    proof {
        assert(nv.skip(n as int) =~= Seq::<NodeView>::empty());
    }
    Ok(t)
}

// ---------------------------------------------------------------------
// The edge pass
// ---------------------------------------------------------------------

/// A term frame with one more clause.
pub open spec fn term_frame_push(f: TermFrameView, c: TermClauseView) -> TermFrameView {
    TermFrameView { id: f.id, clauses: f.clauses.push(c) }
}

/// A typedef frame with one more clause.
pub open spec fn typedef_frame_push(f: TypedefFrameView, c: TypedefClauseView) -> TypedefFrameView {
    TypedefFrameView { id: f.id, clauses: f.clauses.push(c) }
}

/// An instance frame with one more clause.
pub open spec fn instance_frame_push(
    f: InstanceFrameView,
    c: InstanceClauseView,
) -> InstanceFrameView {
    InstanceFrameView { id: f.id, clauses: f.clauses.push(c) }
}

/// One edge's effect on the frame table. All three identifier texts must
/// parse. A subclass predicate (the literals `is_a`, `subPropertyOf` and
/// `subClassOf`) becomes an IsA clause on a term or typedef subject and is
/// an error on an instance subject; `inverseOf` becomes an InverseOf
/// clause on a typedef subject and is an error on a term or instance
/// subject; every other predicate becomes a Relationship clause on any
/// subject. An edge whose subject has no frame changes nothing and is no
/// error.
pub open spec fn spec_apply_edge(t: Seq<EntityFrameView>, e: EdgeView) -> Result<
    Seq<EntityFrameView>,
    SpecError,
> {
    match spec_ident(e.sub) {
        Err(er) => Err(er),
        Ok(sub) => match spec_ident(e.pred) {
            Err(er) => Err(er),
            Ok(prd) => match spec_ident(e.obj) {
                Err(er) => Err(er),
                Ok(obj) => {
                    let i = table_index(t, sub);
                    if e.pred == "is_a"@ || e.pred == "subPropertyOf"@ || e.pred
                        == "subClassOf"@ {
                        if i < 0 {
                            Ok(t)
                        } else {
                            match t[i] {
                                EntityFrameView::Term { frame } => Ok(
                                    t.update(
                                        i,
                                        EntityFrameView::Term {
                                            frame: term_frame_push(
                                                frame,
                                                TermClauseView::IsA { id: obj },
                                            ),
                                        },
                                    ),
                                ),
                                EntityFrameView::Typedef { frame } => Ok(
                                    t.update(
                                        i,
                                        EntityFrameView::Typedef {
                                            frame: typedef_frame_push(
                                                frame,
                                                TypedefClauseView::IsA { id: obj },
                                            ),
                                        },
                                    ),
                                ),
                                EntityFrameView::Instance { .. } => Err(
                                    SpecError::InvalidInstanceClause { clause: "is_a"@ },
                                ),
                            }
                        }
                    } else if e.pred == "inverseOf"@ {
                        if i < 0 {
                            Ok(t)
                        } else {
                            match t[i] {
                                EntityFrameView::Typedef { frame } => Ok(
                                    t.update(
                                        i,
                                        EntityFrameView::Typedef {
                                            frame: typedef_frame_push(
                                                frame,
                                                TypedefClauseView::InverseOf { id: obj },
                                            ),
                                        },
                                    ),
                                ),
                                EntityFrameView::Term { .. } => Err(
                                    SpecError::InvalidTermClause { clause: "inverse_of"@ },
                                ),
                                EntityFrameView::Instance { .. } => Err(
                                    SpecError::InvalidInstanceClause { clause: "inverse_of"@ },
                                ),
                            }
                        }
                    } else {
                        if i < 0 {
                            Ok(t)
                        } else {
                            match t[i] {
                                EntityFrameView::Term { frame } => Ok(
                                    t.update(
                                        i,
                                        EntityFrameView::Term {
                                            frame: term_frame_push(
                                                frame,
                                                TermClauseView::Relationship { rel: prd, id: obj },
                                            ),
                                        },
                                    ),
                                ),
                                EntityFrameView::Typedef { frame } => Ok(
                                    t.update(
                                        i,
                                        EntityFrameView::Typedef {
                                            frame: typedef_frame_push(
                                                frame,
                                                TypedefClauseView::Relationship {
                                                    rel: prd,
                                                    id: obj,
                                                },
                                            ),
                                        },
                                    ),
                                ),
                                EntityFrameView::Instance { frame } => Ok(
                                    t.update(
                                        i,
                                        EntityFrameView::Instance {
                                            frame: instance_frame_push(
                                                frame,
                                                InstanceClauseView::Relationship {
                                                    rel: prd,
                                                    id: obj,
                                                },
                                            ),
                                        },
                                    ),
                                ),
                            }
                        }
                    }
                },
            },
        },
    }
}

/// Applies one edge to the frame table.
fn apply_edge(t: Vec<EntityFrame>, e: &crate::model::Edge) -> (r: Result<Vec<EntityFrame>, Error>)
    ensures
        match r {
            Ok(t2) => spec_apply_edge(frames_view(&t), e@) == Result::<
                Seq<EntityFrameView>,
                SpecError,
            >::Ok(frames_view(&t2)),
            Err(er) => spec_apply_edge(frames_view(&t), e@) == Result::<
                Seq<EntityFrameView>,
                SpecError,
            >::Err(error_of(er@)),
        },
{
    let ghost tv = frames_view(&t);
    let mut t = t;
    let sub = match ident_of(e.sub.as_str()) {
        Ok(id) => id,
        Err(er) => {
            return Err(er);
        },
    };
    let _prd = match ident_of(e.pred.as_str()) {
        Ok(id) => id,
        Err(er) => {
            return Err(er);
        },
    };
    let obj = match ident_of(e.obj.as_str()) {
        Ok(id) => id,
        Err(er) => {
            return Err(er);
        },
    };
    let isa = strutil::str_eq(e.pred.as_str(), "is_a") || strutil::str_eq(
        e.pred.as_str(),
        "subPropertyOf",
    ) || strutil::str_eq(e.pred.as_str(), "subClassOf");
    let inv = strutil::str_eq(e.pred.as_str(), "inverseOf");
    let i = match find_frame(&t, &sub) {
        Some(i) => i,
        None => {
            return Ok(t);
        },
    };
    if isa {
        match t.remove(i) {
            EntityFrame::Term(mut f) => {
                let ghost fv = f@;
                f.clauses.push(TermClause::IsA(obj));
                proof {
                    assert(f@.clauses =~= fv.clauses.push(f.clauses@.last()@));
                }
                t.insert(i, EntityFrame::Term(f));
                proof {
                    assert(frames_view(&t) =~= tv.update(
                        i as int,
                        spec_apply_edge(tv, e@)->Ok_0[i as int],
                    ));
                    assert(frames_view(&t) =~= spec_apply_edge(tv, e@)->Ok_0);
                }
                Ok(t)
            },
            EntityFrame::Typedef(mut f) => {
                let ghost fv = f@;
                f.clauses.push(TypedefClause::IsA(obj));
                proof {
                    assert(f@.clauses =~= fv.clauses.push(f.clauses@.last()@));
                }
                t.insert(i, EntityFrame::Typedef(f));
                proof {
                    assert(frames_view(&t) =~= spec_apply_edge(tv, e@)->Ok_0);
                }
                Ok(t)
            },
            EntityFrame::Instance(_) => Err(Error::invalid_instance_clause("is_a")),
        }
    } else if inv {
        match t.remove(i) {
            EntityFrame::Typedef(mut f) => {
                let ghost fv = f@;
                f.clauses.push(TypedefClause::InverseOf(obj));
                proof {
                    assert(f@.clauses =~= fv.clauses.push(f.clauses@.last()@));
                }
                t.insert(i, EntityFrame::Typedef(f));
                proof {
                    assert(frames_view(&t) =~= spec_apply_edge(tv, e@)->Ok_0);
                }
                Ok(t)
            },
            EntityFrame::Term(_) => Err(Error::invalid_term_clause("inverse_of")),
            EntityFrame::Instance(_) => Err(Error::invalid_instance_clause("inverse_of")),
        }
    } else {
        match t.remove(i) {
            EntityFrame::Term(mut f) => {
                let ghost fv = f@;
                f.clauses.push(TermClause::Relationship(_prd, obj));
                proof {
                    assert(f@.clauses =~= fv.clauses.push(f.clauses@.last()@));
                }
                t.insert(i, EntityFrame::Term(f));
                proof {
                    assert(frames_view(&t) =~= spec_apply_edge(tv, e@)->Ok_0);
                }
                Ok(t)
            },
            EntityFrame::Typedef(mut f) => {
                let ghost fv = f@;
                f.clauses.push(TypedefClause::Relationship(_prd, obj));
                proof {
                    assert(f@.clauses =~= fv.clauses.push(f.clauses@.last()@));
                }
                t.insert(i, EntityFrame::Typedef(f));
                proof {
                    assert(frames_view(&t) =~= spec_apply_edge(tv, e@)->Ok_0);
                }
                Ok(t)
            },
            EntityFrame::Instance(mut f) => {
                let ghost fv = f@;
                f.clauses.push(InstanceClause::Relationship(_prd, obj));
                proof {
                    assert(f@.clauses =~= fv.clauses.push(f.clauses@.last()@));
                }
                t.insert(i, EntityFrame::Instance(f));
                proof {
                    assert(frames_view(&t) =~= spec_apply_edge(tv, e@)->Ok_0);
                }
                Ok(t)
            },
        }
    }
}

/// The frame table after the edge pass.
pub open spec fn spec_edges_pass(t: Seq<EntityFrameView>, edges: Seq<EdgeView>) -> Result<
    Seq<EntityFrameView>,
    SpecError,
>
    decreases edges.len(),
{
    if edges.len() == 0 {
        Ok(t)
    } else {
        match spec_apply_edge(t, edges[0]) {
            Ok(t2) => spec_edges_pass(t2, edges.skip(1)),
            Err(e) => Err(e),
        }
    }
}

/// Runs the edge pass.
fn edges_pass(t_in: Vec<EntityFrame>, edges: &Vec<crate::model::Edge>) -> (r: Result<
    Vec<EntityFrame>,
    Error,
>)
    ensures
        match r {
            Ok(t2) => spec_edges_pass(
                frames_view(&t_in),
                edges@.map_values(|x: crate::model::Edge| x@),
            ) == Result::<Seq<EntityFrameView>, SpecError>::Ok(frames_view(&t2)),
            Err(e) => spec_edges_pass(
                frames_view(&t_in),
                edges@.map_values(|x: crate::model::Edge| x@),
            ) == Result::<Seq<EntityFrameView>, SpecError>::Err(error_of(e@)),
        },
{
    let ghost t0 = frames_view(&t_in);
    let ghost ev = edges@.map_values(|x: crate::model::Edge| x@);
    let mut t = t_in;
    let n = edges.len();
    proof {
        assert(ev.skip(0) =~= ev);
    }
    for i in 0..n
        invariant
            n == edges.len(),
            ev.len() == n,
            t0 == frames_view(&t_in),
            ev == edges@.map_values(|x: crate::model::Edge| x@),
            spec_edges_pass(t0, ev) == spec_edges_pass(frames_view(&t), ev.skip(i as int)),
    {
        proof {
            assert(ev.skip(i as int)[0] == ev[i as int]);
            assert(ev[i as int] == edges[i as int]@);
            assert(ev.skip(i as int).skip(1) =~= ev.skip(i + 1));
        }
        t = match apply_edge(t, &edges[i]) {
            Ok(t2) => t2,
            Err(e) => {
                return Err(e);
            },
        };
    }
    proof {
        assert(ev.skip(n as int) =~= Seq::<EdgeView>::empty());
    }
    Ok(t)
}


// ---------------------------------------------------------------------
// The equivalence-set pass
// ---------------------------------------------------------------------

/// The equivalence partners of one member: every other identifier text of
/// the set, parsed, in set order; occurrences of the member's own text are
/// skipped.
pub open spec fn spec_eq_others(ids: Seq<Seq<char>>, me: Seq<char>) -> Result<
    Seq<IdentView>,
    SpecError,
>
    decreases ids.len(),
{
    if ids.len() == 0 {
        Ok(Seq::empty())
    } else if ids[0] == me {
        spec_eq_others(ids.skip(1), me)
    } else {
        match spec_ident(ids[0]) {
            Ok(id) => match spec_eq_others(ids.skip(1), me) {
                Ok(rest) => Ok(seq![id] + rest),
                Err(e) => Err(e),
            },
            Err(e) => Err(e),
        }
    }
}

/// Parses the equivalence partners of one member.
fn eq_others(ids: &Vec<String>, me: &String) -> (r: Result<Vec<Ident>, Error>)
    ensures
        match r {
            Ok(out) => spec_eq_others(crate::model::strs_view(ids), me@) == Result::<
                Seq<IdentView>,
                SpecError,
            >::Ok(out@.map_values(|x: Ident| x@)),
            Err(e) => spec_eq_others(crate::model::strs_view(ids), me@) == Result::<
                Seq<IdentView>,
                SpecError,
            >::Err(error_of(e@)),
        },
{
    let ghost vs = crate::model::strs_view(ids);
    let mut out: Vec<Ident> = Vec::new();
    let n = ids.len();
    proof {
        assert(vs.skip(0) =~= vs);
    }
    for i in 0..n
        invariant
            n == ids.len(),
            vs == crate::model::strs_view(ids),
            spec_eq_others(vs, me@) matches Ok(all) ==> all == out@.map_values(|x: Ident| x@)
                + (match spec_eq_others(vs.skip(i as int), me@) {
                Ok(rest) => rest,
                Err(_) => Seq::empty(),
            }),
            spec_eq_others(vs, me@) is Ok <==> spec_eq_others(vs.skip(i as int), me@) is Ok,
            spec_eq_others(vs, me@) matches Err(e) ==> spec_eq_others(vs.skip(i as int), me@)
                == Result::<Seq<IdentView>, SpecError>::Err(e),
    {
        proof {
            assert(vs.skip(i as int)[0] == vs[i as int]);
            assert(vs[i as int] == ids@[i as int]@);
            assert(vs.skip(i as int).skip(1) =~= vs.skip(i + 1));
        }
        if !strutil::str_eq(ids[i].as_str(), me.as_str()) {
            match ident_of(ids[i].as_str()) {
                Ok(id) => {
                    out.push(id);
                    proof {
                        if spec_eq_others(vs, me@) is Ok {
                            assert(out@.map_values(|x: Ident| x@) =~= out@.map_values(
                                |x: Ident| x@,
                            ).take(out@.len() - 1) + seq![out@.last()@]);
                        }
                    }
                },
                Err(e) => {
                    return Err(e);
                },
            }
        }
    }
    proof {
        assert(vs.skip(n as int) =~= Seq::<Seq<char>>::empty());
        if spec_eq_others(vs, me@) is Ok {
            assert(spec_eq_others(vs, me@)->Ok_0 =~= out@.map_values(|x: Ident| x@));
        }
    }
    Ok(out)
}

/// One member's effect on the frame table: a term or typedef frame gains
/// one EquivalentTo clause per other member of the set; an instance
/// member is an error; a member with no frame changes nothing.
pub open spec fn spec_apply_eq_member(
    t: Seq<EntityFrameView>,
    ids: Seq<Seq<char>>,
    me: Seq<char>,
) -> Result<Seq<EntityFrameView>, SpecError> {
    match spec_ident(me) {
        Err(e) => Err(e),
        Ok(mid) => {
            let i = table_index(t, mid);
            if i < 0 {
                Ok(t)
            } else {
                match t[i] {
                    EntityFrameView::Term { frame } => match spec_eq_others(ids, me) {
                        Ok(os) => Ok(
                            t.update(
                                i,
                                EntityFrameView::Term {
                                    frame: TermFrameView {
                                        id: frame.id,
                                        clauses: frame.clauses + os.map_values(
                                            |id: IdentView| TermClauseView::EquivalentTo { id },
                                        ),
                                    },
                                },
                            ),
                        ),
                        Err(e) => Err(e),
                    },
                    EntityFrameView::Typedef { frame } => match spec_eq_others(ids, me) {
                        Ok(os) => Ok(
                            t.update(
                                i,
                                EntityFrameView::Typedef {
                                    frame: TypedefFrameView {
                                        id: frame.id,
                                        clauses: frame.clauses + os.map_values(
                                            |id: IdentView| TypedefClauseView::EquivalentTo { id },
                                        ),
                                    },
                                },
                            ),
                        ),
                        Err(e) => Err(e),
                    },
                    EntityFrameView::Instance { .. } => Err(
                        SpecError::InvalidInstanceClause { clause: "equivalent_to"@ },
                    ),
                }
            }
        },
    }
}

/// Applies one member of one equivalence set to the frame table.
fn apply_eq_member(t_in: Vec<EntityFrame>, ids: &Vec<String>, me: &String) -> (r: Result<
    Vec<EntityFrame>,
    Error,
>)
    ensures
        match r {
            Ok(t2) => spec_apply_eq_member(frames_view(&t_in), crate::model::strs_view(ids), me@)
                == Result::<Seq<EntityFrameView>, SpecError>::Ok(frames_view(&t2)),
            Err(e) => spec_apply_eq_member(frames_view(&t_in), crate::model::strs_view(ids), me@)
                == Result::<Seq<EntityFrameView>, SpecError>::Err(error_of(e@)),
        },
{
    let ghost tv = frames_view(&t_in);
    let mut t = t_in;
    let mid = match ident_of(me.as_str()) {
        Ok(id) => id,
        Err(e) => {
            return Err(e);
        },
    };
    let i = match find_frame(&t, &mid) {
        Some(i) => i,
        None => {
            return Ok(t);
        },
    };
    match t.remove(i) {
        EntityFrame::Term(mut f) => {
            let os = match eq_others(ids, me) {
                Ok(os) => os,
                Err(e) => {
                    return Err(e);
                },
            };
            let ghost fv = f@;
            let ghost osv = os@.map_values(|x: Ident| x@);
            let mut os = os;
            let no = os.len();
            for j in 0..no
                invariant
                    no == osv.len(),
                    os@.len() == osv.len() - j,
                    os@.map_values(|x: Ident| x@) == osv.skip(j as int),
                    f@.id == fv.id,
                    f@.clauses == fv.clauses + osv.take(j as int).map_values(
                        |id: IdentView| TermClauseView::EquivalentTo { id },
                    ),
            {
                let ghost prevo = os@.map_values(|x: Ident| x@);
                let ghost prevc = f@.clauses;
                let o = os.remove(0);
                proof {
                    assert(o@ == prevo[0]);
                    assert(os@.map_values(|x: Ident| x@) =~= prevo.skip(1));
                    assert(prevo.skip(1) =~= osv.skip(j + 1));
                }
                f.clauses.push(TermClause::EquivalentTo(o));
                proof {
                    assert(f@.clauses =~= prevc + seq![f.clauses@.last()@]);
                    assert(osv.take(j + 1).map_values(
                        |id: IdentView| TermClauseView::EquivalentTo { id },
                    ) =~= osv.take(j as int).map_values(
                        |id: IdentView| TermClauseView::EquivalentTo { id },
                    ) + seq![f.clauses@.last()@]);
                    assert(f@.clauses =~= fv.clauses + osv.take(j + 1).map_values(
                        |id: IdentView| TermClauseView::EquivalentTo { id },
                    ));
                }
            }
            proof {
                assert(osv.take(no as int) =~= osv);
            }
            t.insert(i, EntityFrame::Term(f));
            proof {
                assert(frames_view(&t) =~= spec_apply_eq_member(
                    tv,
                    crate::model::strs_view(ids),
                    me@,
                )->Ok_0);
            }
            Ok(t)
        },
        EntityFrame::Typedef(mut f) => {
            let os = match eq_others(ids, me) {
                Ok(os) => os,
                Err(e) => {
                    return Err(e);
                },
            };
            let ghost fv = f@;
            let ghost osv = os@.map_values(|x: Ident| x@);
            let mut os = os;
            let no = os.len();
            for j in 0..no
                invariant
                    no == osv.len(),
                    os@.len() == osv.len() - j,
                    os@.map_values(|x: Ident| x@) == osv.skip(j as int),
                    f@.id == fv.id,
                    f@.clauses == fv.clauses + osv.take(j as int).map_values(
                        |id: IdentView| TypedefClauseView::EquivalentTo { id },
                    ),
            {
                let ghost prevo = os@.map_values(|x: Ident| x@);
                let ghost prevc = f@.clauses;
                let o = os.remove(0);
                proof {
                    assert(o@ == prevo[0]);
                    assert(os@.map_values(|x: Ident| x@) =~= prevo.skip(1));
                    assert(prevo.skip(1) =~= osv.skip(j + 1));
                }
                f.clauses.push(TypedefClause::EquivalentTo(o));
                proof {
                    assert(f@.clauses =~= prevc + seq![f.clauses@.last()@]);
                    assert(osv.take(j + 1).map_values(
                        |id: IdentView| TypedefClauseView::EquivalentTo { id },
                    ) =~= osv.take(j as int).map_values(
                        |id: IdentView| TypedefClauseView::EquivalentTo { id },
                    ) + seq![f.clauses@.last()@]);
                    assert(f@.clauses =~= fv.clauses + osv.take(j + 1).map_values(
                        |id: IdentView| TypedefClauseView::EquivalentTo { id },
                    ));
                }
            }
            proof {
                assert(osv.take(no as int) =~= osv);
            }
            t.insert(i, EntityFrame::Typedef(f));
            proof {
                assert(frames_view(&t) =~= spec_apply_eq_member(
                    tv,
                    crate::model::strs_view(ids),
                    me@,
                )->Ok_0);
            }
            Ok(t)
        },
        EntityFrame::Instance(_) => Err(Error::invalid_instance_clause("equivalent_to")),
    }
}

/// One set's effect on the frame table: each member in turn.
pub open spec fn spec_apply_eq_set(
    t: Seq<EntityFrameView>,
    ids: Seq<Seq<char>>,
    rest: Seq<Seq<char>>,
) -> Result<Seq<EntityFrameView>, SpecError>
    decreases rest.len(),
{
    if rest.len() == 0 {
        Ok(t)
    } else {
        match spec_apply_eq_member(t, ids, rest[0]) {
            Ok(t2) => spec_apply_eq_set(t2, ids, rest.skip(1)),
            Err(e) => Err(e),
        }
    }
}

/// The frame table after the equivalence-set pass.
pub open spec fn spec_eq_pass(
    t: Seq<EntityFrameView>,
    sets: Seq<crate::model::EquivalentNodesSetView>,
) -> Result<Seq<EntityFrameView>, SpecError>
    decreases sets.len(),
{
    if sets.len() == 0 {
        Ok(t)
    } else {
        match spec_apply_eq_set(t, sets[0].node_ids, sets[0].node_ids) {
            Ok(t2) => spec_eq_pass(t2, sets.skip(1)),
            Err(e) => Err(e),
        }
    }
}

/// Runs the equivalence-set pass.
fn eq_pass(t_in: Vec<EntityFrame>, sets: &Vec<crate::model::EquivalentNodesSet>) -> (r: Result<
    Vec<EntityFrame>,
    Error,
>)
    ensures
        match r {
            Ok(t2) => spec_eq_pass(
                frames_view(&t_in),
                sets@.map_values(|x: crate::model::EquivalentNodesSet| x@),
            ) == Result::<Seq<EntityFrameView>, SpecError>::Ok(frames_view(&t2)),
            Err(e) => spec_eq_pass(
                frames_view(&t_in),
                sets@.map_values(|x: crate::model::EquivalentNodesSet| x@),
            ) == Result::<Seq<EntityFrameView>, SpecError>::Err(error_of(e@)),
        },
{
    let ghost t0 = frames_view(&t_in);
    let ghost sv = sets@.map_values(|x: crate::model::EquivalentNodesSet| x@);
    let mut t = t_in;
    let n = sets.len();
    proof {
        assert(sv.skip(0) =~= sv);
    }
    for i in 0..n
        invariant
            n == sets.len(),
            sv.len() == n,
            t0 == frames_view(&t_in),
            sv == sets@.map_values(|x: crate::model::EquivalentNodesSet| x@),
            spec_eq_pass(t0, sv) == spec_eq_pass(frames_view(&t), sv.skip(i as int)),
    {
        proof {
            assert(sv.skip(i as int)[0] == sv[i as int]);
            assert(sv[i as int] == sets[i as int]@);
            assert(sv.skip(i as int).skip(1) =~= sv.skip(i + 1));
        }
        let ids = &sets[i].node_ids;
        let ghost idsv = crate::model::strs_view(ids);
        let m = ids.len();
        proof {
            assert(idsv.skip(0) =~= idsv);
        }
        for j in 0..m
            invariant
                m == ids.len(),
                idsv.len() == m,
                t0 == frames_view(&t_in),
                sv == sets@.map_values(|x: crate::model::EquivalentNodesSet| x@),
                sv.len() == n,
                i < n,
                idsv == crate::model::strs_view(&sets[i as int].node_ids),
                ids == &sets[i as int].node_ids,
                spec_eq_pass(t0, sv) == (match spec_apply_eq_set(
                    frames_view(&t),
                    idsv,
                    idsv.skip(j as int),
                ) {
                    Ok(t2) => spec_eq_pass(t2, sv.skip(i + 1)),
                    Err(e) => Result::<Seq<EntityFrameView>, SpecError>::Err(e),
                }),
        {
            proof {
                assert(idsv.skip(j as int)[0] == idsv[j as int]);
                assert(idsv[j as int] == ids@[j as int]@);
                assert(idsv.skip(j as int).skip(1) =~= idsv.skip(j + 1));
            }
            t = match apply_eq_member(t, ids, &ids[j]) {
                Ok(t2) => t2,
                Err(e) => {
                    return Err(e);
                },
            };
        }
        proof {
            assert(idsv.skip(m as int) =~= Seq::<Seq<char>>::empty());
        }
    }
    proof {
        assert(sv.skip(n as int) =~= Seq::<crate::model::EquivalentNodesSetView>::empty());
    }
    Ok(t)
}

// ---------------------------------------------------------------------
// The domain/range pass
// ---------------------------------------------------------------------

/// One axiom's effect on the frame table: when its predicate identifier
/// has a typedef frame, that frame gains one Domain clause per listed
/// domain class and one Range clause per listed range class; an axiom
/// whose predicate has no typedef frame is silently dropped.
pub open spec fn spec_apply_dr(
    t: Seq<EntityFrameView>,
    dr: crate::model::DomainRangeAxiomView,
) -> Result<Seq<EntityFrameView>, SpecError> {
    match spec_ident(dr.predicate_id) {
        Err(e) => Err(e),
        Ok(pid) => {
            let i = table_index(t, pid);
            if i < 0 {
                Ok(t)
            } else {
                match t[i] {
                    EntityFrameView::Typedef { frame } => match spec_idents_of(
                        dr.domain_class_ids,
                    ) {
                        Ok(ds) => match spec_idents_of(dr.range_class_ids) {
                            Ok(rs) => Ok(
                                t.update(
                                    i,
                                    EntityFrameView::Typedef {
                                        frame: TypedefFrameView {
                                            id: frame.id,
                                            clauses: frame.clauses + ds.map_values(
                                                |id: IdentView| TypedefClauseView::Domain { id },
                                            ) + rs.map_values(
                                                |id: IdentView| TypedefClauseView::Range { id },
                                            ),
                                        },
                                    },
                                ),
                            ),
                            Err(e) => Err(e),
                        },
                        Err(e) => Err(e),
                    },
                    _ => Ok(t),
                }
            }
        },
    }
}

/// Applies one domain/range axiom to the frame table.
fn apply_dr(t_in: Vec<EntityFrame>, dr: &crate::model::DomainRangeAxiom) -> (r: Result<
    Vec<EntityFrame>,
    Error,
>)
    ensures
        match r {
            Ok(t2) => spec_apply_dr(frames_view(&t_in), dr@) == Result::<
                Seq<EntityFrameView>,
                SpecError,
            >::Ok(frames_view(&t2)),
            Err(e) => spec_apply_dr(frames_view(&t_in), dr@) == Result::<
                Seq<EntityFrameView>,
                SpecError,
            >::Err(error_of(e@)),
        },
{
    let ghost tv = frames_view(&t_in);
    let mut t = t_in;
    let pid = match ident_of(dr.predicate_id.as_str()) {
        Ok(id) => id,
        Err(e) => {
            return Err(e);
        },
    };
    let i = match find_frame(&t, &pid) {
        Some(i) => i,
        None => {
            return Ok(t);
        },
    };
    let is_typedef = match &t[i] {
        EntityFrame::Typedef(_) => true,
        _ => false,
    };
    if !is_typedef {
        return Ok(t);
    }
    match t.remove(i) {
        EntityFrame::Typedef(mut f) => {
            let ds = match idents_of(&dr.domain_class_ids) {
                Ok(v) => v,
                Err(e) => {
                    return Err(e);
                },
            };
            let rs = match idents_of(&dr.range_class_ids) {
                Ok(v) => v,
                Err(e) => {
                    return Err(e);
                },
            };
            let ghost fv = f@;
            let ghost dsv = ds@.map_values(|x: Ident| x@);
            let ghost rsv = rs@.map_values(|x: Ident| x@);
            let mut ds = ds;
            let nd = ds.len();
            for j in 0..nd
                invariant
                    nd == dsv.len(),
                    ds@.len() == dsv.len() - j,
                    ds@.map_values(|x: Ident| x@) == dsv.skip(j as int),
                    f@.id == fv.id,
                    f@.clauses == fv.clauses + dsv.take(j as int).map_values(
                        |id: IdentView| TypedefClauseView::Domain { id },
                    ),
            {
                let ghost prevo = ds@.map_values(|x: Ident| x@);
                let ghost prevc = f@.clauses;
                let o = ds.remove(0);
                proof {
                    assert(o@ == prevo[0]);
                    assert(ds@.map_values(|x: Ident| x@) =~= prevo.skip(1));
                    assert(prevo.skip(1) =~= dsv.skip(j + 1));
                }
                f.clauses.push(TypedefClause::Domain(o));
                proof {
                    assert(f@.clauses =~= prevc + seq![f.clauses@.last()@]);
                    assert(dsv.take(j + 1).map_values(
                        |id: IdentView| TypedefClauseView::Domain { id },
                    ) =~= dsv.take(j as int).map_values(
                        |id: IdentView| TypedefClauseView::Domain { id },
                    ) + seq![f.clauses@.last()@]);
                    assert(f@.clauses =~= fv.clauses + dsv.take(j + 1).map_values(
                        |id: IdentView| TypedefClauseView::Domain { id },
                    ));
                }
            }
            proof {
                assert(dsv.take(nd as int) =~= dsv);
            }
            let ghost fv2 = f@;
            let mut rs = rs;
            let nr = rs.len();
            for j in 0..nr
                invariant
                    nr == rsv.len(),
                    rs@.len() == rsv.len() - j,
                    rs@.map_values(|x: Ident| x@) == rsv.skip(j as int),
                    f@.id == fv2.id,
                    f@.clauses == fv2.clauses + rsv.take(j as int).map_values(
                        |id: IdentView| TypedefClauseView::Range { id },
                    ),
            {
                let ghost prevo = rs@.map_values(|x: Ident| x@);
                let ghost prevc = f@.clauses;
                let o = rs.remove(0);
                proof {
                    assert(o@ == prevo[0]);
                    assert(rs@.map_values(|x: Ident| x@) =~= prevo.skip(1));
                    assert(prevo.skip(1) =~= rsv.skip(j + 1));
                }
                f.clauses.push(TypedefClause::Range(o));
                proof {
                    assert(f@.clauses =~= prevc + seq![f.clauses@.last()@]);
                    assert(rsv.take(j + 1).map_values(
                        |id: IdentView| TypedefClauseView::Range { id },
                    ) =~= rsv.take(j as int).map_values(
                        |id: IdentView| TypedefClauseView::Range { id },
                    ) + seq![f.clauses@.last()@]);
                    assert(f@.clauses =~= fv2.clauses + rsv.take(j + 1).map_values(
                        |id: IdentView| TypedefClauseView::Range { id },
                    ));
                }
            }
            proof {
                assert(rsv.take(nr as int) =~= rsv);
            }
            t.insert(i, EntityFrame::Typedef(f));
            proof {
                assert(f@.clauses =~= fv.clauses + dsv.map_values(
                    |id: IdentView| TypedefClauseView::Domain { id },
                ) + rsv.map_values(|id: IdentView| TypedefClauseView::Range { id }));
                assert(frames_view(&t) =~= spec_apply_dr(tv, dr@)->Ok_0);
            }
            Ok(t)
        },
        _ => {
            // unreachable: the frame at `i` is a typedef
            proof {
                assert(false);
            }
            Ok(t)
        },
    }
}

/// The frame table after the domain/range pass.
pub open spec fn spec_dr_pass(
    t: Seq<EntityFrameView>,
    drs: Seq<crate::model::DomainRangeAxiomView>,
) -> Result<Seq<EntityFrameView>, SpecError>
    decreases drs.len(),
{
    if drs.len() == 0 {
        Ok(t)
    } else {
        match spec_apply_dr(t, drs[0]) {
            Ok(t2) => spec_dr_pass(t2, drs.skip(1)),
            Err(e) => Err(e),
        }
    }
}

/// Runs the domain/range pass.
fn dr_pass(t_in: Vec<EntityFrame>, drs: &Vec<crate::model::DomainRangeAxiom>) -> (r: Result<
    Vec<EntityFrame>,
    Error,
>)
    ensures
        match r {
            Ok(t2) => spec_dr_pass(
                frames_view(&t_in),
                drs@.map_values(|x: crate::model::DomainRangeAxiom| x@),
            ) == Result::<Seq<EntityFrameView>, SpecError>::Ok(frames_view(&t2)),
            Err(e) => spec_dr_pass(
                frames_view(&t_in),
                drs@.map_values(|x: crate::model::DomainRangeAxiom| x@),
            ) == Result::<Seq<EntityFrameView>, SpecError>::Err(error_of(e@)),
        },
{
    let ghost t0 = frames_view(&t_in);
    let ghost dv = drs@.map_values(|x: crate::model::DomainRangeAxiom| x@);
    let mut t = t_in;
    let n = drs.len();
    proof {
        assert(dv.skip(0) =~= dv);
    }
    for i in 0..n
        invariant
            n == drs.len(),
            dv.len() == n,
            t0 == frames_view(&t_in),
            dv == drs@.map_values(|x: crate::model::DomainRangeAxiom| x@),
            spec_dr_pass(t0, dv) == spec_dr_pass(frames_view(&t), dv.skip(i as int)),
    {
        proof {
            assert(dv.skip(i as int)[0] == dv[i as int]);
            assert(dv[i as int] == drs[i as int]@);
            assert(dv.skip(i as int).skip(1) =~= dv.skip(i + 1));
        }
        t = match apply_dr(t, &drs[i]) {
            Ok(t2) => t2,
            Err(e) => {
                return Err(e);
            },
        };
    }
    proof {
        assert(dv.skip(n as int) =~= Seq::<crate::model::DomainRangeAxiomView>::empty());
    }
    Ok(t)
}


// ---------------------------------------------------------------------
// The header, reversed
// ---------------------------------------------------------------------

/// The header clause a document-level property value determines: the
/// reverse of the fixed header table, with any other predicate falling
/// through to a generic annotation.
pub open spec fn spec_header_bpv(pv: BasicPvView) -> Result<HeaderClauseView, SpecError> {
    if pv.pred == crate::constants::has_obo_format_version() {
        Ok(HeaderClauseView::FormatVersion { v: pv.val })
    } else if pv.pred == crate::constants::saved_by() {
        Ok(HeaderClauseView::SavedBy { v: pv.val })
    } else if pv.pred == crate::constants::auto_generated_by() {
        Ok(HeaderClauseView::AutoGeneratedBy { v: pv.val })
    } else if pv.pred == crate::constants::has_date() {
        Ok(HeaderClauseView::Date { v: pv.val })
    } else if pv.pred == crate::constants::has_default_namespace() {
        match spec_ident(pv.val) {
            Ok(id) => Ok(HeaderClauseView::DefaultNamespace { id }),
            Err(e) => Err(e),
        }
    } else if pv.pred == crate::constants::namespace_id_rule() {
        Ok(HeaderClauseView::NamespaceIdRule { v: pv.val })
    } else {
        match spec_pv_of(pv) {
            Ok(p) => Ok(HeaderClauseView::PropertyValue { pv: p }),
            Err(e) => Err(e),
        }
    }
}

/// Rebuilds one header clause from a document-level property value.
fn header_bpv_clause(pv: &BasicPropertyValue) -> (r: Result<HeaderClause, Error>)
    ensures
        match r {
            Ok(c) => spec_header_bpv(pv@) == Result::<HeaderClauseView, SpecError>::Ok(c@),
            Err(e) => spec_header_bpv(pv@) == Result::<HeaderClauseView, SpecError>::Err(
                error_of(e@),
            ),
        },
{
    let p = pv.pred.as_str();
    if strutil::str_eq(p, crate::constants::has_obo_format_version_str()) {
        Ok(HeaderClause::FormatVersion(pv.val.clone()))
    } else if strutil::str_eq(p, crate::constants::saved_by_str()) {
        Ok(HeaderClause::SavedBy(pv.val.clone()))
    } else if strutil::str_eq(p, crate::constants::auto_generated_by_str()) {
        Ok(HeaderClause::AutoGeneratedBy(pv.val.clone()))
    } else if strutil::str_eq(p, crate::constants::has_date_str()) {
        Ok(HeaderClause::Date(pv.val.clone()))
    } else if strutil::str_eq(p, crate::constants::has_default_namespace_str()) {
        match ident_of(pv.val.as_str()) {
            Ok(id) => Ok(HeaderClause::DefaultNamespace(id)),
            Err(e) => Err(e),
        }
    } else if strutil::str_eq(p, crate::constants::namespace_id_rule_str()) {
        Ok(HeaderClause::NamespaceIdRule(pv.val.clone()))
    } else {
        match pv_of(pv) {
            Ok(v) => Ok(HeaderClause::PropertyValue(v)),
            Err(e) => Err(e),
        }
    }
}

/// The header clauses of a list of document-level property values.
pub open spec fn spec_header_bpvs(bs: Seq<BasicPvView>) -> Result<Seq<HeaderClauseView>, SpecError>
    decreases bs.len(),
{
    if bs.len() == 0 {
        Ok(Seq::empty())
    } else {
        match spec_header_bpv(bs[0]) {
            Ok(c) => match spec_header_bpvs(bs.skip(1)) {
                Ok(rest) => Ok(seq![c] + rest),
                Err(e) => Err(e),
            },
            Err(e) => Err(e),
        }
    }
}

/// The header clauses a document-level metadata block determines: its
/// comments as remarks, then its property values through the reverse
/// header table. The version is handled at the document level; the other
/// metadata fields have no header counterpart and are dropped.
pub open spec fn spec_header_of_meta(m: MetaView) -> Result<Seq<HeaderClauseView>, SpecError> {
    match spec_header_bpvs(m.basic_property_values) {
        Ok(bcls) => Ok(
            m.comments.map_values(|t: Seq<char>| HeaderClauseView::Remark { v: t }) + bcls,
        ),
        Err(e) => Err(e),
    }
}

impl HeaderFrame {
    /// Rebuilds a header frame from the document-level metadata.
    pub fn from_graph(m: &Meta) -> (r: Result<HeaderFrame, Error>)
        ensures
            match r {
                Ok(h) => spec_header_of_meta(m@) == Result::<Seq<HeaderClauseView>, SpecError>::Ok(
                    h@.clauses,
                ),
                Err(e) => spec_header_of_meta(m@) == Result::<
                    Seq<HeaderClauseView>,
                    SpecError,
                >::Err(error_of(e@)),
            },
    {
        let mut out: Vec<HeaderClause> = Vec::new();
        let nc = m.comments.len();
        for i in 0..nc
            invariant
                nc == m.comments.len(),
                out@.map_values(|x: HeaderClause| x@) == crate::model::strs_view(&m.comments).take(
                    i as int,
                ).map_values(|t: Seq<char>| HeaderClauseView::Remark { v: t }),
        {
            let ghost prev = out@.map_values(|x: HeaderClause| x@);
            out.push(HeaderClause::Remark(m.comments[i].clone()));
            proof {
                assert(out@.map_values(|x: HeaderClause| x@) =~= prev + seq![out@.last()@]);
                assert(crate::model::strs_view(&m.comments)[i as int] == m.comments@[i as int]@);
                assert(crate::model::strs_view(&m.comments).take(i + 1).map_values(
                    |t: Seq<char>| HeaderClauseView::Remark { v: t },
                ) =~= crate::model::strs_view(&m.comments).take(i as int).map_values(
                    |t: Seq<char>| HeaderClauseView::Remark { v: t },
                ) + seq![out@.last()@]);
            }
        }
        let ghost remarks = out@.map_values(|x: HeaderClause| x@);
        proof {
            assert(crate::model::strs_view(&m.comments).take(nc as int) =~= crate::model::strs_view(
                &m.comments,
            ));
        }
        let ghost bv = m.basic_property_values@.map_values(|x: BasicPropertyValue| x@);
        let nb = m.basic_property_values.len();
        proof {
            assert(bv.skip(0) =~= bv);
        }
        for i in 0..nb
            invariant
                nb == m.basic_property_values.len(),
                bv.len() == nb,
                remarks == crate::model::strs_view(&m.comments).map_values(
                    |t: Seq<char>| HeaderClauseView::Remark { v: t },
                ),
                bv == m.basic_property_values@.map_values(|x: BasicPropertyValue| x@),
                spec_header_bpvs(bv) matches Ok(all) ==> out@.map_values(|x: HeaderClause| x@)
                    + (match spec_header_bpvs(bv.skip(i as int)) {
                    Ok(rest) => rest,
                    Err(_) => Seq::empty(),
                }) == remarks + all,
                spec_header_bpvs(bv) is Ok <==> spec_header_bpvs(bv.skip(i as int)) is Ok,
                spec_header_bpvs(bv) matches Err(e) ==> spec_header_bpvs(bv.skip(i as int))
                    == Result::<Seq<HeaderClauseView>, SpecError>::Err(e),
        {
            proof {
                assert(bv.skip(i as int)[0] == bv[i as int]);
                assert(bv[i as int] == m.basic_property_values[i as int]@);
                assert(bv.skip(i as int).skip(1) =~= bv.skip(i + 1));
            }
            let ghost prev = out@.map_values(|x: HeaderClause| x@);
            match header_bpv_clause(&m.basic_property_values[i]) {
                Ok(c) => {
                    out.push(c);
                    proof {
                        assert(out@.map_values(|x: HeaderClause| x@) =~= prev + seq![
                            out@.last()@,
                        ]);
                    }
                },
                Err(e) => {
                    return Err(e);
                },
            }
        }
        proof {
            assert(bv.skip(nb as int) =~= Seq::<BasicPvView>::empty());
        }
        let h = HeaderFrame { clauses: out };
        proof {
            if spec_header_bpvs(bv) is Ok {
                assert(h@.clauses =~= remarks + spec_header_bpvs(bv)->Ok_0);
                assert(Result::<Seq<HeaderClauseView>, SpecError>::Ok(h@.clauses)
                    =~~= spec_header_of_meta(m@));
            }
        }
        Ok(h)
    }
}

// ---------------------------------------------------------------------
// Trimming for the ontology-name/data-version derivation
// ---------------------------------------------------------------------

/// `s` with every trailing repetition of `suf` removed.
pub open spec fn trim_end_all(s: Seq<char>, suf: Seq<char>) -> Seq<char>
    decreases s.len(),
{
    if suf.len() > 0 && suf.is_suffix_of(s) {
        trim_end_all(s.take(s.len() - suf.len()), suf)
    } else {
        s
    }
}

/// `s` with every leading repetition of `pre` removed.
pub open spec fn trim_start_all(s: Seq<char>, pre: Seq<char>) -> Seq<char>
    decreases s.len(),
{
    if pre.len() > 0 && pre.is_prefix_of(s) {
        trim_start_all(s.skip(pre.len() as int), pre)
    } else {
        s
    }
}

/// `s` with every leading and trailing occurrence of `c` removed.
pub open spec fn trim_char(s: Seq<char>, c: char) -> Seq<char>
    decreases s.len(),
{
    if s.len() > 0 && s[0] == c {
        trim_char(s.skip(1), c)
    } else if s.len() > 0 && s.last() == c {
        trim_char(s.drop_last(), c)
    } else {
        s
    }
}

/// Removes every trailing repetition of `suf` from `s`.
fn trim_end_matches_all(s: String, suf: &str) -> (r: String)
    ensures
        r@ == trim_end_all(s@, suf@),
    decreases s@.len(),
{
    if suf.unicode_len() == 0 {
        return s;
    }
    match strutil::strip_suffix(s.as_str(), suf) {
        Some(rest) => trim_end_matches_all(rest, suf),
        None => s,
    }
}

/// Removes every leading repetition of `pre` from `s`.
fn trim_start_matches_all(s: String, pre: &str) -> (r: String)
    ensures
        r@ == trim_start_all(s@, pre@),
    decreases s@.len(),
{
    if pre.unicode_len() == 0 {
        return s;
    }
    match strutil::strip_prefix(s.as_str(), pre) {
        Some(rest) => trim_start_matches_all(rest, pre),
        None => s,
    }
}

/// Removes every leading and trailing occurrence of `c` from `s`.
fn trim_char_matches(s: String, c: char) -> (r: String)
    ensures
        r@ == trim_char(s@, c),
    decreases s@.len(),
{
    let n = s.as_str().unicode_len();
    if n > 0 && s.as_str().get_char(0) == c {
        let rest = strutil::substring(s.as_str(), 1, n);
        proof {
            assert(rest@ =~= s@.skip(1));
        }
        trim_char_matches(rest, c)
    } else if n > 0 && s.as_str().get_char(n - 1) == c {
        let rest = strutil::substring(s.as_str(), 0, n - 1);
        proof {
            assert(rest@ =~= s@.drop_last());
        }
        trim_char_matches(rest, c)
    } else {
        s
    }
}


// ---------------------------------------------------------------------
// The canonical frame order
// ---------------------------------------------------------------------

/// Strict lexicographic order on character sequences.
pub open spec fn seq_char_lt(a: Seq<char>, b: Seq<char>) -> bool
    decreases a.len(),
{
    if b.len() == 0 {
        false
    } else if a.len() == 0 {
        true
    } else if a[0] != b[0] {
        (a[0] as int) < (b[0] as int)
    } else {
        seq_char_lt(a.skip(1), b.skip(1))
    }
}

/// A common strict prefix does not decide the order.
proof fn lemma_seq_char_lt_common(a: Seq<char>, b: Seq<char>, i: int)
    requires
        0 <= i <= a.len(),
        i <= b.len(),
        forall|j: int| 0 <= j < i ==> a[j] == b[j],
    ensures
        seq_char_lt(a, b) == seq_char_lt(a.skip(i), b.skip(i)),
    decreases i,
{
    if i > 0 {
        assert(a[0] == b[0]);
        assert(a.skip(1).len() == a.len() - 1);
        assert forall|j: int| 0 <= j < i - 1 implies a.skip(1)[j] == b.skip(1)[j] by {
            assert(a.skip(1)[j] == a[j + 1]);
            assert(b.skip(1)[j] == b[j + 1]);
        }
        lemma_seq_char_lt_common(a.skip(1), b.skip(1), i - 1);
        assert(a.skip(1).skip(i - 1) =~= a.skip(i));
        assert(b.skip(1).skip(i - 1) =~= b.skip(i));
    } else {
        assert(a.skip(0) =~= a);
        assert(b.skip(0) =~= b);
    }
}

/// Decides the strict lexicographic order on two strings.
fn str_lt(a: &str, b: &str) -> (r: bool)
    ensures
        r == seq_char_lt(a@, b@),
{
    let na = a.unicode_len();
    let nb = b.unicode_len();
    let n = if na < nb {
        na
    } else {
        nb
    };
    for i in 0..n
        invariant
            na == a@.len(),
            nb == b@.len(),
            n == if na < nb {
                na
            } else {
                nb
            },
            forall|j: int| 0 <= j < i ==> a@[j] == b@[j],
    {
        let ca = a.get_char(i);
        let cb = b.get_char(i);
        if ca != cb {
            proof {
                lemma_seq_char_lt_common(a@, b@, i as int);
                assert(a@.skip(i as int)[0] == a@[i as int]);
                assert(b@.skip(i as int)[0] == b@[i as int]);
            }
            return ca < cb;
        }
    }
    proof {
        lemma_seq_char_lt_common(a@, b@, n as int);
    }
    na < nb
}

/// The rank of an entity kind in the canonical document order: terms,
/// then typedefs, then instances.
pub open spec fn frame_rank(e: EntityFrameView) -> int {
    match e {
        EntityFrameView::Term { .. } => 0,
        EntityFrameView::Typedef { .. } => 1,
        EntityFrameView::Instance { .. } => 2,
    }
}

/// The canonical strict order over frames: by entity kind, then by the
/// rendered identifier, lexicographically.
pub open spec fn frame_lt(a: EntityFrameView, b: EntityFrameView) -> bool {
    frame_rank(a) < frame_rank(b) || (frame_rank(a) == frame_rank(b) && seq_char_lt(
        crate::ident::render_view(a.entity_id()),
        crate::ident::render_view(b.entity_id()),
    ))
}

/// Decides the canonical strict order on two frames.
fn frame_lt_exec(a: &EntityFrame, b: &EntityFrame) -> (r: bool)
    ensures
        r == frame_lt(a@, b@),
{
    let ra: u8 = match a {
        EntityFrame::Term(_) => 0,
        EntityFrame::Typedef(_) => 1,
        EntityFrame::Instance(_) => 2,
    };
    let rb: u8 = match b {
        EntityFrame::Term(_) => 0,
        EntityFrame::Typedef(_) => 1,
        EntityFrame::Instance(_) => 2,
    };
    if ra < rb {
        true
    } else if rb < ra {
        false
    } else {
        let sa = a.entity_id().render();
        let sb = b.entity_id().render();
        str_lt(sa.as_str(), sb.as_str())
    }
}

/// Inserts a frame into a run of frames: before the first frame it
/// strictly precedes, so that frames comparing equal keep their relative
/// order.
pub open spec fn sort_insert(sorted: Seq<EntityFrameView>, e: EntityFrameView) -> Seq<
    EntityFrameView,
>
    decreases sorted.len(),
{
    if sorted.len() == 0 {
        seq![e]
    } else if frame_lt(e, sorted[0]) {
        seq![e] + sorted
    } else {
        seq![sorted[0]] + sort_insert(sorted.skip(1), e)
    }
}

/// Inserting at the first position whose frame `e` strictly precedes is
/// what `sort_insert` does.
proof fn lemma_sort_insert_at(sorted: Seq<EntityFrameView>, e: EntityFrameView, pos: int)
    requires
        0 <= pos <= sorted.len(),
        forall|j: int| 0 <= j < pos ==> !frame_lt(e, #[trigger] sorted[j]),
        pos < sorted.len() ==> frame_lt(e, sorted[pos]),
    ensures
        sort_insert(sorted, e) == sorted.take(pos) + seq![e] + sorted.skip(pos),
    decreases pos,
{
    if sorted.len() == 0 {
        assert(sort_insert(sorted, e) =~= sorted.take(pos) + seq![e] + sorted.skip(pos));
    } else if pos == 0 {
        assert(sorted.take(0) =~= Seq::<EntityFrameView>::empty());
        assert(sorted.skip(0) =~= sorted);
        assert(sort_insert(sorted, e) =~= sorted.take(0) + seq![e] + sorted.skip(0));
    } else {
        assert(!frame_lt(e, sorted[0]));
        assert forall|j: int| 0 <= j < pos - 1 implies !frame_lt(
            e,
            #[trigger] sorted.skip(1)[j],
        ) by {
            assert(sorted.skip(1)[j] == sorted[j + 1]);
        }
        if pos - 1 < sorted.skip(1).len() {
            assert(sorted.skip(1)[pos - 1] == sorted[pos]);
        }
        lemma_sort_insert_at(sorted.skip(1), e, pos - 1);
        assert(sorted.skip(1).take(pos - 1) =~= sorted.take(pos).skip(1));
        assert(sorted.skip(1).skip(pos - 1) =~= sorted.skip(pos));
        assert(seq![sorted[0]] + (sorted.skip(1).take(pos - 1) + seq![e] + sorted.skip(pos))
            =~= sorted.take(pos) + seq![e] + sorted.skip(pos));
    }
}

/// The canonical sort of the frame collection: stable insertion in the
/// canonical order.
pub open spec fn spec_sort_frames(fs: Seq<EntityFrameView>) -> Seq<EntityFrameView> {
    fs.fold_left(
        Seq::<EntityFrameView>::empty(),
        |acc: Seq<EntityFrameView>, e: EntityFrameView| sort_insert(acc, e),
    )
}

/// The position where a frame is inserted: the first index whose frame it
/// strictly precedes.
fn find_insert_pos(sorted: &Vec<EntityFrame>, e: &EntityFrame) -> (r: usize)
    ensures
        r <= sorted@.len(),
        forall|j: int| 0 <= j < r ==> !frame_lt(e@, #[trigger] frames_view(sorted)[j]),
        r < sorted@.len() ==> frame_lt(e@, frames_view(sorted)[r as int]),
{
    let n = sorted.len();
    for i in 0..n
        invariant
            n == sorted.len(),
            forall|j: int| 0 <= j < i ==> !frame_lt(e@, #[trigger] frames_view(sorted)[j]),
    {
        if frame_lt_exec(e, &sorted[i]) {
            return i;
        }
    }
    n
}

/// Sorts the frames into the canonical order.
fn sort_frames(fs: Vec<EntityFrame>) -> (r: Vec<EntityFrame>)
    ensures
        frames_view(&r) == spec_sort_frames(frames_view(&fs)),
{
    let ghost fv = frames_view(&fs);
    let mut rest = fs;
    let mut out: Vec<EntityFrame> = Vec::new();
    let n = rest.len();
    proof {
        assert(fv.take(0) =~= Seq::<EntityFrameView>::empty());
    }
    for i in 0..n
        invariant
            n == fv.len(),
            rest@.len() == fv.len() - i,
            frames_view(&rest) == fv.skip(i as int),
            frames_view(&out) == spec_sort_frames(fv.take(i as int)),
    {
        let ghost prevr = frames_view(&rest);
        let ghost prevo = frames_view(&out);
        let e = rest.remove(0);
        proof {
            assert(e@ == prevr[0]);
            assert(frames_view(&rest) =~= prevr.skip(1));
            assert(prevr.skip(1) =~= fv.skip(i + 1));
        }
        let pos = find_insert_pos(&out, &e);
        proof {
            lemma_sort_insert_at(prevo, e@, pos as int);
        }
        out.insert(pos, e);
        proof {
            assert(frames_view(&out) =~= prevo.take(pos as int) + seq![e@] + prevo.skip(
                pos as int,
            ));
            assert(fv.take(i + 1).drop_last() =~= fv.take(i as int));
            assert(fv.take(i + 1).last() == fv[i as int]);
            assert(frames_view(&out) =~= spec_sort_frames(fv.take(i + 1)));
        }
    }
    proof {
        assert(fv.take(n as int) =~= fv);
    }
    out
}


// ---------------------------------------------------------------------
// Global identifier compaction
// ---------------------------------------------------------------------

/// Compaction of one cross-reference.
pub open spec fn c_xref(m: Seq<(Seq<char>, Seq<char>)>, x: XrefView) -> XrefView {
    XrefView { id: crate::context::spec_compact(m, x.id), description: x.description }
}

/// Compaction of a cross-reference list.
pub open spec fn c_xrefs(m: Seq<(Seq<char>, Seq<char>)>, xs: Seq<XrefView>) -> Seq<XrefView> {
    xs.map_values(|x: XrefView| c_xref(m, x))
}

/// Compaction of a synonym.
pub open spec fn c_syn(m: Seq<(Seq<char>, Seq<char>)>, s: SynonymView) -> SynonymView {
    SynonymView {
        text: s.text,
        scope: s.scope,
        ty: match s.ty {
            Some(t) => Some(crate::context::spec_compact(m, t)),
            None => None,
        },
        xrefs: c_xrefs(m, s.xrefs),
    }
}

/// Compaction of a generic annotation.
pub open spec fn c_pv(m: Seq<(Seq<char>, Seq<char>)>, pv: PropertyValueView) -> PropertyValueView {
    match pv {
        PropertyValueView::Resource { prop, target } => PropertyValueView::Resource {
            prop: crate::context::spec_compact(m, prop),
            target: crate::context::spec_compact(m, target),
        },
        PropertyValueView::Literal { prop, val, ty } => PropertyValueView::Literal {
            prop: crate::context::spec_compact(m, prop),
            val,
            ty: crate::context::spec_compact(m, ty),
        },
    }
}

/// Compaction of one term clause: every identifier it holds is compacted.
pub open spec fn c_term_clause(
    m: Seq<(Seq<char>, Seq<char>)>,
    c: TermClauseView,
) -> TermClauseView {
    match c {
        TermClauseView::Namespace { id } => TermClauseView::Namespace {
            id: crate::context::spec_compact(m, id),
        },
        TermClauseView::AltId { id } => TermClauseView::AltId {
            id: crate::context::spec_compact(m, id),
        },
        TermClauseView::Def { text, xrefs } => TermClauseView::Def {
            text,
            xrefs: c_xrefs(m, xrefs),
        },
        TermClauseView::Subset { id } => TermClauseView::Subset {
            id: crate::context::spec_compact(m, id),
        },
        TermClauseView::Synonym { syn } => TermClauseView::Synonym { syn: c_syn(m, syn) },
        TermClauseView::Xref { xref } => TermClauseView::Xref { xref: c_xref(m, xref) },
        TermClauseView::PropertyValue { pv } => TermClauseView::PropertyValue { pv: c_pv(m, pv) },
        TermClauseView::IsA { id } => TermClauseView::IsA {
            id: crate::context::spec_compact(m, id),
        },
        TermClauseView::IntersectionOf { rel, id } => TermClauseView::IntersectionOf {
            rel: match rel {
                Some(r) => Some(crate::context::spec_compact(m, r)),
                None => None,
            },
            id: crate::context::spec_compact(m, id),
        },
        TermClauseView::UnionOf { id } => TermClauseView::UnionOf {
            id: crate::context::spec_compact(m, id),
        },
        TermClauseView::EquivalentTo { id } => TermClauseView::EquivalentTo {
            id: crate::context::spec_compact(m, id),
        },
        TermClauseView::DisjointFrom { id } => TermClauseView::DisjointFrom {
            id: crate::context::spec_compact(m, id),
        },
        TermClauseView::Relationship { rel, id } => TermClauseView::Relationship {
            rel: crate::context::spec_compact(m, rel),
            id: crate::context::spec_compact(m, id),
        },
        TermClauseView::ReplacedBy { id } => TermClauseView::ReplacedBy {
            id: crate::context::spec_compact(m, id),
        },
        TermClauseView::Consider { id } => TermClauseView::Consider {
            id: crate::context::spec_compact(m, id),
        },
        _ => c,
    }
}

/// Compaction of one typedef clause.
pub open spec fn c_typedef_clause(
    m: Seq<(Seq<char>, Seq<char>)>,
    c: TypedefClauseView,
) -> TypedefClauseView {
    match c {
        TypedefClauseView::Namespace { id } => TypedefClauseView::Namespace {
            id: crate::context::spec_compact(m, id),
        },
        TypedefClauseView::AltId { id } => TypedefClauseView::AltId {
            id: crate::context::spec_compact(m, id),
        },
        TypedefClauseView::Def { text, xrefs } => TypedefClauseView::Def {
            text,
            xrefs: c_xrefs(m, xrefs),
        },
        TypedefClauseView::Subset { id } => TypedefClauseView::Subset {
            id: crate::context::spec_compact(m, id),
        },
        TypedefClauseView::Synonym { syn } => TypedefClauseView::Synonym { syn: c_syn(m, syn) },
        TypedefClauseView::Xref { xref } => TypedefClauseView::Xref { xref: c_xref(m, xref) },
        TypedefClauseView::PropertyValue { pv } => TypedefClauseView::PropertyValue {
            pv: c_pv(m, pv),
        },
        TypedefClauseView::Domain { id } => TypedefClauseView::Domain {
            id: crate::context::spec_compact(m, id),
        },
        TypedefClauseView::Range { id } => TypedefClauseView::Range {
            id: crate::context::spec_compact(m, id),
        },
        TypedefClauseView::HoldsOverChain { r1, r2 } => TypedefClauseView::HoldsOverChain {
            r1: crate::context::spec_compact(m, r1),
            r2: crate::context::spec_compact(m, r2),
        },
        TypedefClauseView::IsA { id } => TypedefClauseView::IsA {
            id: crate::context::spec_compact(m, id),
        },
        TypedefClauseView::IntersectionOf { id } => TypedefClauseView::IntersectionOf {
            id: crate::context::spec_compact(m, id),
        },
        TypedefClauseView::UnionOf { id } => TypedefClauseView::UnionOf {
            id: crate::context::spec_compact(m, id),
        },
        TypedefClauseView::EquivalentTo { id } => TypedefClauseView::EquivalentTo {
            id: crate::context::spec_compact(m, id),
        },
        TypedefClauseView::DisjointFrom { id } => TypedefClauseView::DisjointFrom {
            id: crate::context::spec_compact(m, id),
        },
        TypedefClauseView::InverseOf { id } => TypedefClauseView::InverseOf {
            id: crate::context::spec_compact(m, id),
        },
        TypedefClauseView::TransitiveOver { id } => TypedefClauseView::TransitiveOver {
            id: crate::context::spec_compact(m, id),
        },
        TypedefClauseView::EquivalentToChain { r1, r2 } => TypedefClauseView::EquivalentToChain {
            r1: crate::context::spec_compact(m, r1),
            r2: crate::context::spec_compact(m, r2),
        },
        TypedefClauseView::DisjointOver { id } => TypedefClauseView::DisjointOver {
            id: crate::context::spec_compact(m, id),
        },
        TypedefClauseView::Relationship { rel, id } => TypedefClauseView::Relationship {
            rel: crate::context::spec_compact(m, rel),
            id: crate::context::spec_compact(m, id),
        },
        TypedefClauseView::ReplacedBy { id } => TypedefClauseView::ReplacedBy {
            id: crate::context::spec_compact(m, id),
        },
        TypedefClauseView::Consider { id } => TypedefClauseView::Consider {
            id: crate::context::spec_compact(m, id),
        },
        TypedefClauseView::ExpandAssertionTo { text, xrefs } => TypedefClauseView::ExpandAssertionTo {
            text,
            xrefs: c_xrefs(m, xrefs),
        },
        TypedefClauseView::ExpandExpressionTo {
            text,
            xrefs,
        } => TypedefClauseView::ExpandExpressionTo { text, xrefs: c_xrefs(m, xrefs) },
        _ => c,
    }
}

/// Compaction of one instance clause.
pub open spec fn c_instance_clause(
    m: Seq<(Seq<char>, Seq<char>)>,
    c: InstanceClauseView,
) -> InstanceClauseView {
    match c {
        InstanceClauseView::Namespace { id } => InstanceClauseView::Namespace {
            id: crate::context::spec_compact(m, id),
        },
        InstanceClauseView::AltId { id } => InstanceClauseView::AltId {
            id: crate::context::spec_compact(m, id),
        },
        InstanceClauseView::Def { text, xrefs } => InstanceClauseView::Def {
            text,
            xrefs: c_xrefs(m, xrefs),
        },
        InstanceClauseView::Subset { id } => InstanceClauseView::Subset {
            id: crate::context::spec_compact(m, id),
        },
        InstanceClauseView::Synonym { syn } => InstanceClauseView::Synonym { syn: c_syn(m, syn) },
        InstanceClauseView::Xref { xref } => InstanceClauseView::Xref { xref: c_xref(m, xref) },
        InstanceClauseView::PropertyValue { pv } => InstanceClauseView::PropertyValue {
            pv: c_pv(m, pv),
        },
        InstanceClauseView::InstanceOf { id } => InstanceClauseView::InstanceOf {
            id: crate::context::spec_compact(m, id),
        },
        InstanceClauseView::Relationship { rel, id } => InstanceClauseView::Relationship {
            rel: crate::context::spec_compact(m, rel),
            id: crate::context::spec_compact(m, id),
        },
        InstanceClauseView::ReplacedBy { id } => InstanceClauseView::ReplacedBy {
            id: crate::context::spec_compact(m, id),
        },
        InstanceClauseView::Consider { id } => InstanceClauseView::Consider {
            id: crate::context::spec_compact(m, id),
        },
        _ => c,
    }
}

/// Compaction of one header clause.
pub open spec fn c_header_clause(
    m: Seq<(Seq<char>, Seq<char>)>,
    c: HeaderClauseView,
) -> HeaderClauseView {
    match c {
        HeaderClauseView::Subsetdef { id, def } => HeaderClauseView::Subsetdef {
            id: crate::context::spec_compact(m, id),
            def,
        },
        HeaderClauseView::SynonymTypedef { id, def, scope } => HeaderClauseView::SynonymTypedef {
            id: crate::context::spec_compact(m, id),
            def,
            scope,
        },
        HeaderClauseView::DefaultNamespace { id } => HeaderClauseView::DefaultNamespace {
            id: crate::context::spec_compact(m, id),
        },
        HeaderClauseView::PropertyValue { pv } => HeaderClauseView::PropertyValue {
            pv: c_pv(m, pv),
        },
        _ => c,
    }
}

/// Compaction of one frame: its identifier and every clause.
pub open spec fn c_frame(m: Seq<(Seq<char>, Seq<char>)>, e: EntityFrameView) -> EntityFrameView {
    match e {
        EntityFrameView::Term { frame } => EntityFrameView::Term {
            frame: TermFrameView {
                id: crate::context::spec_compact(m, frame.id),
                clauses: frame.clauses.map_values(|c: TermClauseView| c_term_clause(m, c)),
            },
        },
        EntityFrameView::Typedef { frame } => EntityFrameView::Typedef {
            frame: TypedefFrameView {
                id: crate::context::spec_compact(m, frame.id),
                clauses: frame.clauses.map_values(|c: TypedefClauseView| c_typedef_clause(m, c)),
            },
        },
        EntityFrameView::Instance { frame } => EntityFrameView::Instance {
            frame: InstanceFrameView {
                id: crate::context::spec_compact(m, frame.id),
                clauses: frame.clauses.map_values(|c: InstanceClauseView| c_instance_clause(m, c)),
            },
        },
    }
}

/// The idspace table the header declares, in declaration order, later
/// bindings of a prefix replacing earlier ones.
pub open spec fn idspaces_of_header(hs: Seq<HeaderClauseView>) -> Seq<(Seq<char>, Seq<char>)> {
    hs.fold_left(
        Seq::<(Seq<char>, Seq<char>)>::empty(),
        |acc: Seq<(Seq<char>, Seq<char>)>, c: HeaderClauseView| match c {
            HeaderClauseView::Idspace { prefix, base, def: _ } => crate::context::assoc_insert(
                acc,
                prefix,
                base,
            ),
            _ => acc,
        },
    )
}

/// Compacts one cross-reference.
fn compact_xref(m: &Vec<(String, String)>, x: Xref) -> (r: Xref)
    ensures
        r@ == c_xref(crate::context::pairs_view(m), x@),
{
    let Xref { id, description } = x;
    Xref { id: crate::context::compact_ident(m, id), description }
}

/// Compacts a cross-reference list.
fn compact_xref_vec(m: &Vec<(String, String)>, xs: Vec<Xref>) -> (r: Vec<Xref>)
    ensures
        crate::ast::xrefs_view(&r) == c_xrefs(
            crate::context::pairs_view(m),
            crate::ast::xrefs_view(&xs),
        ),
{
    let ghost xv = crate::ast::xrefs_view(&xs);
    let mut rest = xs;
    let mut out: Vec<Xref> = Vec::new();
    let n = rest.len();
    for i in 0..n
        invariant
            n == xv.len(),
            rest@.len() == xv.len() - i,
            crate::ast::xrefs_view(&rest) == xv.skip(i as int),
            crate::ast::xrefs_view(&out) == c_xrefs(crate::context::pairs_view(m), xv).take(
                i as int,
            ),
    {
        let ghost prevr = crate::ast::xrefs_view(&rest);
        let ghost prevo = crate::ast::xrefs_view(&out);
        let x = rest.remove(0);
        proof {
            assert(x@ == prevr[0]);
            assert(crate::ast::xrefs_view(&rest) =~= prevr.skip(1));
            assert(prevr.skip(1) =~= xv.skip(i + 1));
        }
        out.push(compact_xref(m, x));
        proof {
            assert(crate::ast::xrefs_view(&out) =~= prevo + seq![out@.last()@]);
            assert(c_xrefs(crate::context::pairs_view(m), xv)[i as int] == c_xref(
                crate::context::pairs_view(m),
                xv[i as int],
            ));
            assert(c_xrefs(crate::context::pairs_view(m), xv).take(i + 1) =~= c_xrefs(
                crate::context::pairs_view(m),
                xv,
            ).take(i as int) + seq![out@.last()@]);
        }
    }
    proof {
        assert(c_xrefs(crate::context::pairs_view(m), xv).take(n as int) =~= c_xrefs(
            crate::context::pairs_view(m),
            xv,
        ));
    }
    out
}

/// Compacts a synonym.
fn compact_synonym(m: &Vec<(String, String)>, s: Synonym) -> (r: Synonym)
    ensures
        r@ == c_syn(crate::context::pairs_view(m), s@),
{
    let Synonym { text, scope, ty, xrefs } = s;
    let r = Synonym {
        text,
        scope,
        ty: match ty {
            Some(t) => Some(crate::context::compact_ident(m, t)),
            None => None,
        },
        xrefs: compact_xref_vec(m, xrefs),
    };
    proof {
        assert(r@ =~= c_syn(crate::context::pairs_view(m), s@));
    }
    r
}

/// Compacts a generic annotation.
fn compact_pv(m: &Vec<(String, String)>, pv: PropertyValue) -> (r: PropertyValue)
    ensures
        r@ == c_pv(crate::context::pairs_view(m), pv@),
{
    match pv {
        PropertyValue::Resource(prop, target) => PropertyValue::Resource(
            crate::context::compact_ident(m, prop),
            crate::context::compact_ident(m, target),
        ),
        PropertyValue::Literal(prop, val, ty) => PropertyValue::Literal(
            crate::context::compact_ident(m, prop),
            val,
            crate::context::compact_ident(m, ty),
        ),
    }
}

/// Compacts one term clause.
fn compact_term_clause(m: &Vec<(String, String)>, c: TermClause) -> (r: TermClause)
    ensures
        r@ == c_term_clause(crate::context::pairs_view(m), c@),
{
    match c {
        TermClause::Namespace(id) => TermClause::Namespace(crate::context::compact_ident(m, id)),
        TermClause::AltId(id) => TermClause::AltId(crate::context::compact_ident(m, id)),
        TermClause::Def(text, xrefs) => TermClause::Def(text, compact_xref_vec(m, xrefs)),
        TermClause::Subset(id) => TermClause::Subset(crate::context::compact_ident(m, id)),
        TermClause::Synonym(syn) => TermClause::Synonym(compact_synonym(m, syn)),
        TermClause::Xref(x) => TermClause::Xref(compact_xref(m, x)),
        TermClause::PropertyValue(pv) => TermClause::PropertyValue(compact_pv(m, pv)),
        TermClause::IsA(id) => TermClause::IsA(crate::context::compact_ident(m, id)),
        TermClause::IntersectionOf(rel, id) => TermClause::IntersectionOf(
            match rel {
                Some(r) => Some(crate::context::compact_ident(m, r)),
                None => None,
            },
            crate::context::compact_ident(m, id),
        ),
        TermClause::UnionOf(id) => TermClause::UnionOf(crate::context::compact_ident(m, id)),
        TermClause::EquivalentTo(id) => TermClause::EquivalentTo(
            crate::context::compact_ident(m, id),
        ),
        TermClause::DisjointFrom(id) => TermClause::DisjointFrom(
            crate::context::compact_ident(m, id),
        ),
        TermClause::Relationship(rel, id) => TermClause::Relationship(
            crate::context::compact_ident(m, rel),
            crate::context::compact_ident(m, id),
        ),
        TermClause::ReplacedBy(id) => TermClause::ReplacedBy(crate::context::compact_ident(m, id)),
        TermClause::Consider(id) => TermClause::Consider(crate::context::compact_ident(m, id)),
        other => other,
    }
}

/// Compacts one typedef clause.
fn compact_typedef_clause(m: &Vec<(String, String)>, c: TypedefClause) -> (r: TypedefClause)
    ensures
        r@ == c_typedef_clause(crate::context::pairs_view(m), c@),
{
    match c {
        TypedefClause::Namespace(id) => TypedefClause::Namespace(
            crate::context::compact_ident(m, id),
        ),
        TypedefClause::AltId(id) => TypedefClause::AltId(crate::context::compact_ident(m, id)),
        TypedefClause::Def(text, xrefs) => TypedefClause::Def(text, compact_xref_vec(m, xrefs)),
        TypedefClause::Subset(id) => TypedefClause::Subset(crate::context::compact_ident(m, id)),
        TypedefClause::Synonym(syn) => TypedefClause::Synonym(compact_synonym(m, syn)),
        TypedefClause::Xref(x) => TypedefClause::Xref(compact_xref(m, x)),
        TypedefClause::PropertyValue(pv) => TypedefClause::PropertyValue(compact_pv(m, pv)),
        TypedefClause::Domain(id) => TypedefClause::Domain(crate::context::compact_ident(m, id)),
        TypedefClause::Range(id) => TypedefClause::Range(crate::context::compact_ident(m, id)),
        TypedefClause::HoldsOverChain(r1, r2) => TypedefClause::HoldsOverChain(
            crate::context::compact_ident(m, r1),
            crate::context::compact_ident(m, r2),
        ),
        TypedefClause::IsA(id) => TypedefClause::IsA(crate::context::compact_ident(m, id)),
        TypedefClause::IntersectionOf(id) => TypedefClause::IntersectionOf(
            crate::context::compact_ident(m, id),
        ),
        TypedefClause::UnionOf(id) => TypedefClause::UnionOf(crate::context::compact_ident(m, id)),
        TypedefClause::EquivalentTo(id) => TypedefClause::EquivalentTo(
            crate::context::compact_ident(m, id),
        ),
        TypedefClause::DisjointFrom(id) => TypedefClause::DisjointFrom(
            crate::context::compact_ident(m, id),
        ),
        TypedefClause::InverseOf(id) => TypedefClause::InverseOf(
            crate::context::compact_ident(m, id),
        ),
        TypedefClause::TransitiveOver(id) => TypedefClause::TransitiveOver(
            crate::context::compact_ident(m, id),
        ),
        TypedefClause::EquivalentToChain(r1, r2) => TypedefClause::EquivalentToChain(
            crate::context::compact_ident(m, r1),
            crate::context::compact_ident(m, r2),
        ),
        TypedefClause::DisjointOver(id) => TypedefClause::DisjointOver(
            crate::context::compact_ident(m, id),
        ),
        TypedefClause::Relationship(rel, id) => TypedefClause::Relationship(
            crate::context::compact_ident(m, rel),
            crate::context::compact_ident(m, id),
        ),
        TypedefClause::ReplacedBy(id) => TypedefClause::ReplacedBy(
            crate::context::compact_ident(m, id),
        ),
        TypedefClause::Consider(id) => TypedefClause::Consider(
            crate::context::compact_ident(m, id),
        ),
        TypedefClause::ExpandAssertionTo(text, xrefs) => TypedefClause::ExpandAssertionTo(
            text,
            compact_xref_vec(m, xrefs),
        ),
        TypedefClause::ExpandExpressionTo(text, xrefs) => TypedefClause::ExpandExpressionTo(
            text,
            compact_xref_vec(m, xrefs),
        ),
        other => other,
    }
}

/// Compacts one instance clause.
fn compact_instance_clause(m: &Vec<(String, String)>, c: InstanceClause) -> (r: InstanceClause)
    ensures
        r@ == c_instance_clause(crate::context::pairs_view(m), c@),
{
    match c {
        InstanceClause::Namespace(id) => InstanceClause::Namespace(
            crate::context::compact_ident(m, id),
        ),
        InstanceClause::AltId(id) => InstanceClause::AltId(crate::context::compact_ident(m, id)),
        InstanceClause::Def(text, xrefs) => InstanceClause::Def(text, compact_xref_vec(m, xrefs)),
        InstanceClause::Subset(id) => InstanceClause::Subset(crate::context::compact_ident(m, id)),
        InstanceClause::Synonym(syn) => InstanceClause::Synonym(compact_synonym(m, syn)),
        InstanceClause::Xref(x) => InstanceClause::Xref(compact_xref(m, x)),
        InstanceClause::PropertyValue(pv) => InstanceClause::PropertyValue(compact_pv(m, pv)),
        InstanceClause::InstanceOf(id) => InstanceClause::InstanceOf(
            crate::context::compact_ident(m, id),
        ),
        InstanceClause::Relationship(rel, id) => InstanceClause::Relationship(
            crate::context::compact_ident(m, rel),
            crate::context::compact_ident(m, id),
        ),
        InstanceClause::ReplacedBy(id) => InstanceClause::ReplacedBy(
            crate::context::compact_ident(m, id),
        ),
        InstanceClause::Consider(id) => InstanceClause::Consider(
            crate::context::compact_ident(m, id),
        ),
        other => other,
    }
}

/// Compacts one header clause.
fn compact_header_clause(m: &Vec<(String, String)>, c: HeaderClause) -> (r: HeaderClause)
    ensures
        r@ == c_header_clause(crate::context::pairs_view(m), c@),
{
    match c {
        HeaderClause::Subsetdef(id, def) => HeaderClause::Subsetdef(
            crate::context::compact_ident(m, id),
            def,
        ),
        HeaderClause::SynonymTypedef(id, def, scope) => HeaderClause::SynonymTypedef(
            crate::context::compact_ident(m, id),
            def,
            scope,
        ),
        HeaderClause::DefaultNamespace(id) => HeaderClause::DefaultNamespace(
            crate::context::compact_ident(m, id),
        ),
        HeaderClause::PropertyValue(pv) => HeaderClause::PropertyValue(compact_pv(m, pv)),
        other => other,
    }
}

/// Compacts one frame.
fn compact_frame(m: &Vec<(String, String)>, e: EntityFrame) -> (r: EntityFrame)
    ensures
        r@ == c_frame(crate::context::pairs_view(m), e@),
{
    match e {
        EntityFrame::Term(f) => {
            let TermFrame { id, clauses } = f;
            let ghost cv = clauses@.map_values(|c: TermClause| c@);
            let mut rest = clauses;
            let mut out: Vec<TermClause> = Vec::new();
            let n = rest.len();
            for i in 0..n
                invariant
                    n == cv.len(),
                    rest@.len() == cv.len() - i,
                    rest@.map_values(|c: TermClause| c@) == cv.skip(i as int),
                    out@.map_values(|c: TermClause| c@) == cv.map_values(
                        |c: TermClauseView| c_term_clause(crate::context::pairs_view(m), c),
                    ).take(i as int),
            {
                let ghost prevr = rest@.map_values(|c: TermClause| c@);
                let ghost prevo = out@.map_values(|c: TermClause| c@);
                let c = rest.remove(0);
                proof {
                    assert(c@ == prevr[0]);
                    assert(rest@.map_values(|c: TermClause| c@) =~= prevr.skip(1));
                    assert(prevr.skip(1) =~= cv.skip(i + 1));
                }
                out.push(compact_term_clause(m, c));
                proof {
                    assert(out@.map_values(|c: TermClause| c@) =~= prevo + seq![out@.last()@]);
                    assert(cv.map_values(
                        |c: TermClauseView| c_term_clause(crate::context::pairs_view(m), c),
                    )[i as int] == c_term_clause(crate::context::pairs_view(m), cv[i as int]));
                    assert(cv.map_values(
                        |c: TermClauseView| c_term_clause(crate::context::pairs_view(m), c),
                    ).take(i + 1) =~= prevo + seq![out@.last()@]);
                }
            }
            let r = TermFrame { id: crate::context::compact_ident(m, id), clauses: out };
            proof {
                assert(cv.map_values(
                    |c: TermClauseView| c_term_clause(crate::context::pairs_view(m), c),
                ).take(n as int) =~= cv.map_values(
                    |c: TermClauseView| c_term_clause(crate::context::pairs_view(m), c),
                ));
                assert(EntityFrame::Term(r)@ =~~= c_frame(
                    crate::context::pairs_view(m),
                    EntityFrameView::Term { frame: TermFrameView { id: id@, clauses: cv } },
                ));
            }
            EntityFrame::Term(r)
        },
        EntityFrame::Typedef(f) => {
            let TypedefFrame { id, clauses } = f;
            let ghost cv = clauses@.map_values(|c: TypedefClause| c@);
            let mut rest = clauses;
            let mut out: Vec<TypedefClause> = Vec::new();
            let n = rest.len();
            for i in 0..n
                invariant
                    n == cv.len(),
                    rest@.len() == cv.len() - i,
                    rest@.map_values(|c: TypedefClause| c@) == cv.skip(i as int),
                    out@.map_values(|c: TypedefClause| c@) == cv.map_values(
                        |c: TypedefClauseView| c_typedef_clause(crate::context::pairs_view(m), c),
                    ).take(i as int),
            {
                let ghost prevr = rest@.map_values(|c: TypedefClause| c@);
                let ghost prevo = out@.map_values(|c: TypedefClause| c@);
                let c = rest.remove(0);
                proof {
                    assert(c@ == prevr[0]);
                    assert(rest@.map_values(|c: TypedefClause| c@) =~= prevr.skip(1));
                    assert(prevr.skip(1) =~= cv.skip(i + 1));
                }
                out.push(compact_typedef_clause(m, c));
                proof {
                    assert(out@.map_values(|c: TypedefClause| c@) =~= prevo + seq![
                        out@.last()@,
                    ]);
                    assert(cv.map_values(
                        |c: TypedefClauseView| c_typedef_clause(crate::context::pairs_view(m), c),
                    )[i as int] == c_typedef_clause(crate::context::pairs_view(m), cv[i as int]));
                    assert(cv.map_values(
                        |c: TypedefClauseView| c_typedef_clause(crate::context::pairs_view(m), c),
                    ).take(i + 1) =~= prevo + seq![out@.last()@]);
                }
            }
            let r = TypedefFrame { id: crate::context::compact_ident(m, id), clauses: out };
            proof {
                assert(cv.map_values(
                    |c: TypedefClauseView| c_typedef_clause(crate::context::pairs_view(m), c),
                ).take(n as int) =~= cv.map_values(
                    |c: TypedefClauseView| c_typedef_clause(crate::context::pairs_view(m), c),
                ));
                assert(EntityFrame::Typedef(r)@ =~~= c_frame(
                    crate::context::pairs_view(m),
                    EntityFrameView::Typedef { frame: TypedefFrameView { id: id@, clauses: cv } },
                ));
            }
            EntityFrame::Typedef(r)
        },
        EntityFrame::Instance(f) => {
            let InstanceFrame { id, clauses } = f;
            let ghost cv = clauses@.map_values(|c: InstanceClause| c@);
            let mut rest = clauses;
            let mut out: Vec<InstanceClause> = Vec::new();
            let n = rest.len();
            for i in 0..n
                invariant
                    n == cv.len(),
                    rest@.len() == cv.len() - i,
                    rest@.map_values(|c: InstanceClause| c@) == cv.skip(i as int),
                    out@.map_values(|c: InstanceClause| c@) == cv.map_values(
                        |c: InstanceClauseView| c_instance_clause(
                            crate::context::pairs_view(m),
                            c,
                        ),
                    ).take(i as int),
            {
                let ghost prevr = rest@.map_values(|c: InstanceClause| c@);
                let ghost prevo = out@.map_values(|c: InstanceClause| c@);
                let c = rest.remove(0);
                proof {
                    assert(c@ == prevr[0]);
                    assert(rest@.map_values(|c: InstanceClause| c@) =~= prevr.skip(1));
                    assert(prevr.skip(1) =~= cv.skip(i + 1));
                }
                out.push(compact_instance_clause(m, c));
                proof {
                    assert(out@.map_values(|c: InstanceClause| c@) =~= prevo + seq![
                        out@.last()@,
                    ]);
                    assert(cv.map_values(
                        |c: InstanceClauseView| c_instance_clause(
                            crate::context::pairs_view(m),
                            c,
                        ),
                    )[i as int] == c_instance_clause(crate::context::pairs_view(m), cv[i as int]));
                    assert(cv.map_values(
                        |c: InstanceClauseView| c_instance_clause(
                            crate::context::pairs_view(m),
                            c,
                        ),
                    ).take(i + 1) =~= prevo + seq![out@.last()@]);
                }
            }
            let r = InstanceFrame { id: crate::context::compact_ident(m, id), clauses: out };
            proof {
                assert(cv.map_values(
                    |c: InstanceClauseView| c_instance_clause(crate::context::pairs_view(m), c),
                ).take(n as int) =~= cv.map_values(
                    |c: InstanceClauseView| c_instance_clause(crate::context::pairs_view(m), c),
                ));
                assert(EntityFrame::Instance(r)@ =~~= c_frame(
                    crate::context::pairs_view(m),
                    EntityFrameView::Instance {
                        frame: InstanceFrameView { id: id@, clauses: cv },
                    },
                ));
            }
            EntityFrame::Instance(r)
        },
    }
}

/// Collects the idspace table a header declares.
fn header_idspaces(hs: &Vec<HeaderClause>) -> (r: Vec<(String, String)>)
    ensures
        crate::context::pairs_view(&r) == idspaces_of_header(
            hs@.map_values(|c: HeaderClause| c@),
        ),
{
    let ghost hv = hs@.map_values(|c: HeaderClause| c@);
    let mut out: Vec<(String, String)> = Vec::new();
    let n = hs.len();
    proof {
        assert(hv.take(0) =~= Seq::<HeaderClauseView>::empty());
        assert(crate::context::pairs_view(&out) =~= idspaces_of_header(hv.take(0)));
    }
    for i in 0..n
        invariant
            n == hs.len(),
            hv == hs@.map_values(|c: HeaderClause| c@),
            crate::context::pairs_view(&out) == idspaces_of_header(hv.take(i as int)),
    {
        proof {
            assert(hv.take(i + 1).drop_last() =~= hv.take(i as int));
            assert(hv.take(i + 1).last() == hv[i as int]);
            assert(hv[i as int] == hs[i as int]@);
        }
        match &hs[i] {
            HeaderClause::Idspace(prefix, base, _) => {
                out = pairs_insert(out, prefix.clone(), base.clone());
            },
            _ => (),
        }
        assert(crate::context::pairs_view(&out) =~= idspaces_of_header(hv.take(i + 1)));
    }
    proof {
        assert(hv.take(n as int) =~= hv);
    }
    out
}

/// Binds a prefix in a raw idspace table, replacing an earlier binding.
fn pairs_insert(t_in: Vec<(String, String)>, prefix: String, base: String) -> (r: Vec<
    (String, String),
>)
    ensures
        crate::context::pairs_view(&r) == crate::context::assoc_insert(
            crate::context::pairs_view(&t_in),
            prefix@,
            base@,
        ),
{
    let ghost orig = crate::context::pairs_view(&t_in);
    let mut t = t_in;
    let n = t.len();
    proof {
        assert(orig.skip(0) =~= orig);
        assert(orig.take(0) =~= Seq::<(Seq<char>, Seq<char>)>::empty());
        assert(orig.take(0) + crate::context::assoc_insert(orig.skip(0), prefix@, base@)
            =~= crate::context::assoc_insert(orig, prefix@, base@));
    }
    for i in 0..n
        invariant
            n == t.len(),
            orig == crate::context::pairs_view(&t_in),
            crate::context::pairs_view(&t) == orig,
            forall|j: int| 0 <= j < i ==> orig[j].0 != prefix@,
            crate::context::assoc_insert(orig, prefix@, base@) == orig.take(i as int)
                + crate::context::assoc_insert(orig.skip(i as int), prefix@, base@),
    {
        proof {
            assert(orig.skip(i as int)[0] == orig[i as int]);
        }
        if strutil::str_eq(t[i].0.as_str(), prefix.as_str()) {
            t.set(i, (prefix, base));
            proof {
                assert(orig.skip(i as int)[0].0 == prefix@);
                assert(crate::context::assoc_insert(orig.skip(i as int), prefix@, base@) == seq![
                    (prefix@, base@),
                ] + orig.skip(i as int).skip(1));
                assert(orig.skip(i as int).skip(1) =~= orig.skip(i + 1));
                assert(crate::context::pairs_view(&t) =~= orig.take(i as int) + (seq![
                    (prefix@, base@),
                ] + orig.skip(i + 1)));
                assert(crate::context::pairs_view(&t) == crate::context::assoc_insert(
                    orig,
                    prefix@,
                    base@,
                ));
            }
            return t;
        }
        proof {
            assert(orig.skip(i as int).skip(1) =~= orig.skip(i + 1));
            assert(orig.take(i + 1) =~= orig.take(i as int) + seq![orig[i as int]]);
            assert((orig.take(i as int) + (seq![orig[i as int]] + crate::context::assoc_insert(
                orig.skip(i + 1),
                prefix@,
                base@,
            ))) =~= orig.take(i + 1) + crate::context::assoc_insert(
                orig.skip(i + 1),
                prefix@,
                base@,
            ));
        }
    }
    proof {
        assert(orig.skip(n as int) =~= Seq::<(Seq<char>, Seq<char>)>::empty());
        assert(crate::context::assoc_insert(orig.skip(n as int), prefix@, base@) =~= seq![
            (prefix@, base@),
        ]);
    }
    t.push((prefix, base));
    proof {
        assert(crate::context::pairs_view(&t) =~= orig.take(n as int) + seq![(prefix@, base@)]);
        assert(orig.take(n as int) =~= orig);
    }
    t
}


// ---------------------------------------------------------------------
// The whole conversion
// ---------------------------------------------------------------------

/// The ontology-name and data-version clauses derived from the graph's
/// identifier and version by trimming the fixed OBO base and the `.owl` /
/// `.obo` suffixes. A graph identifier outside the OBO base yields
/// neither clause.
pub open spec fn spec_header_extra(
    graph_id: Seq<char>,
    version: Option<Seq<char>>,
) -> Seq<HeaderClauseView> {
    if crate::context::obo_base().is_prefix_of(graph_id) {
        let ont = trim_end_all(
            trim_end_all(graph_id.skip(crate::context::obo_base().len() as int), ".obo"@),
            ".owl"@,
        );
        let dv: Seq<HeaderClauseView> = match version {
            Some(v) => if crate::context::obo_base().is_prefix_of(v) {
                let v1 = v.skip(crate::context::obo_base().len() as int);
                let v2 = trim_char(
                    trim_end_all(
                        trim_end_all(trim_end_all(trim_start_all(v1, ont), ".owl"@), ".obo"@),
                        ont,
                    ),
                    '/',
                );
                seq![HeaderClauseView::DataVersion { v: v2 }]
            } else {
                Seq::empty()
            },
            None => Seq::empty(),
        };
        seq![HeaderClauseView::Ontology { v: ont }] + dv
    } else {
        Seq::empty()
    }
}

/// The document a graph determines: frames from the nodes; edges,
/// equivalence sets and domain/range axioms attached to the matching
/// frames; the header from the graph metadata plus the derived
/// ontology-name and data-version clauses; the frames sorted into the
/// canonical order; and every identifier compacted against the idspace
/// table the assembled header declares.
pub open spec fn spec_from_graph(g: crate::model::GraphView) -> Result<OboDocView, SpecError> {
    match spec_nodes_pass(Seq::empty(), g.nodes) {
        Err(e) => Err(e),
        Ok(t1) => match spec_edges_pass(t1, g.edges) {
            Err(e) => Err(e),
            Ok(t2) => match spec_eq_pass(t2, g.equivalent_nodes_sets) {
                Err(e) => Err(e),
                Ok(t3) => match spec_dr_pass(t3, g.domain_range_axioms) {
                    Err(e) => Err(e),
                    Ok(t4) => match spec_header_of_meta(g.meta) {
                        Err(e) => Err(e),
                        Ok(hcls0) => {
                            let hcls = hcls0 + spec_header_extra(g.id, g.meta.version);
                            let sorted = spec_sort_frames(t4);
                            let m = idspaces_of_header(hcls);
                            Ok(
                                OboDocView {
                                    header: HeaderFrameView {
                                        clauses: hcls.map_values(
                                            |c: HeaderClauseView| c_header_clause(m, c),
                                        ),
                                    },
                                    entities: sorted.map_values(
                                        |e: EntityFrameView| c_frame(m, e),
                                    ),
                                },
                            )
                        },
                    },
                },
            },
        },
    }
}

impl OboDoc {
    /// Rebuilds a whole flat document from one graph. The first malformed
    /// identifier, boolean or synonym predicate aborts the conversion;
    /// edges and axioms whose subject has no frame are silently dropped.
    pub fn from_graph(graph: crate::model::Graph) -> (r: Result<OboDoc, Error>)
        ensures
            match r {
                Ok(doc) => spec_from_graph(graph@) == Result::<OboDocView, SpecError>::Ok(doc@),
                Err(e) => spec_from_graph(graph@) == Result::<OboDocView, SpecError>::Err(
                    error_of(e@),
                ),
            },
    {
        let ghost gv = graph@;
        let crate::model::Graph {
            nodes,
            edges,
            id,
            label: _,
            meta,
            equivalent_nodes_sets,
            logical_definition_axioms: _,
            domain_range_axioms,
            property_chain_axioms: _,
        } = graph;
        let meta_inner: Meta = *meta;
        let empty_t: Vec<EntityFrame> = Vec::new();
        proof {
            assert(frames_view(&empty_t) =~= Seq::<EntityFrameView>::empty());
            assert(gv.nodes == nodes@.map_values(|x: Node| x@));
            assert(gv.edges == edges@.map_values(|x: crate::model::Edge| x@));
            assert(gv.equivalent_nodes_sets == equivalent_nodes_sets@.map_values(
                |x: crate::model::EquivalentNodesSet| x@,
            ));
            assert(gv.domain_range_axioms == domain_range_axioms@.map_values(
                |x: crate::model::DomainRangeAxiom| x@,
            ));
            assert(gv.meta == meta_inner@);
            assert(gv.id == id@);
        }
        let t1 = match nodes_pass(empty_t, &nodes) {
            Ok(t) => t,
            Err(e) => {
                return Err(e);
            },
        };
        let t2 = match edges_pass(t1, &edges) {
            Ok(t) => t,
            Err(e) => {
                return Err(e);
            },
        };
        let t3 = match eq_pass(t2, &equivalent_nodes_sets) {
            Ok(t) => t,
            Err(e) => {
                return Err(e);
            },
        };
        let t4 = match dr_pass(t3, &domain_range_axioms) {
            Ok(t) => t,
            Err(e) => {
                return Err(e);
            },
        };
        let version: Option<String> = match &meta_inner.version {
            Some(v) => Some(v.clone()),
            None => None,
        };
        let mut header = match HeaderFrame::from_graph(&meta_inner) {
            Ok(h) => h,
            Err(e) => {
                return Err(e);
            },
        };
        let ghost hcls0 = header@.clauses;
        match strutil::strip_prefix(id.as_str(), crate::context::obo_base_str()) {
            Some(ont_raw) => {
                let ont1 = trim_end_matches_all(ont_raw, ".obo");
                let ont = trim_end_matches_all(ont1, ".owl");
                header.clauses.push(HeaderClause::Ontology(ont.clone()));
                match &version {
                    Some(v) => {
                        match strutil::strip_prefix(
                            v.as_str(),
                            crate::context::obo_base_str(),
                        ) {
                            Some(v1) => {
                                let v2 = trim_start_matches_all(v1, ont.as_str());
                                let v3 = trim_end_matches_all(v2, ".owl");
                                let v4 = trim_end_matches_all(v3, ".obo");
                                let v5 = trim_end_matches_all(v4, ont.as_str());
                                let v6 = trim_char_matches(v5, '/');
                                header.clauses.push(HeaderClause::DataVersion(v6));
                            },
                            None => (),
                        }
                    },
                    None => (),
                }
            },
            None => (),
        }
        proof {
            assert(header@.clauses =~= hcls0 + spec_header_extra(gv.id, gv.meta.version));
        }
        let ghost hcls = header@.clauses;
        let sorted = sort_frames(t4);
        let table = header_idspaces(&header.clauses);
        let ghost mv = crate::context::pairs_view(&table);
        // compact the header clauses
        let HeaderFrame { clauses } = header;
        let ghost hv = clauses@.map_values(|c: HeaderClause| c@);
        let mut rest_h = clauses;
        let mut out_h: Vec<HeaderClause> = Vec::new();
        let nh = rest_h.len();
        for i in 0..nh
            invariant
                nh == hv.len(),
                rest_h@.len() == hv.len() - i,
                rest_h@.map_values(|c: HeaderClause| c@) == hv.skip(i as int),
                out_h@.map_values(|c: HeaderClause| c@) == hv.map_values(
                    |c: HeaderClauseView| c_header_clause(mv, c),
                ).take(i as int),
                mv == crate::context::pairs_view(&table),
        {
            let ghost prevr = rest_h@.map_values(|c: HeaderClause| c@);
            let ghost prevo = out_h@.map_values(|c: HeaderClause| c@);
            let c = rest_h.remove(0);
            proof {
                assert(c@ == prevr[0]);
                assert(rest_h@.map_values(|c: HeaderClause| c@) =~= prevr.skip(1));
                assert(prevr.skip(1) =~= hv.skip(i + 1));
            }
            out_h.push(compact_header_clause(&table, c));
            proof {
                assert(out_h@.map_values(|c: HeaderClause| c@) =~= prevo + seq![out_h@.last()@]);
                assert(hv.map_values(|c: HeaderClauseView| c_header_clause(mv, c))[i as int]
                    == c_header_clause(mv, hv[i as int]));
                assert(hv.map_values(|c: HeaderClauseView| c_header_clause(mv, c)).take(i + 1)
                    =~= prevo + seq![out_h@.last()@]);
            }
        }
        proof {
            assert(hv.map_values(|c: HeaderClauseView| c_header_clause(mv, c)).take(nh as int)
                =~= hv.map_values(|c: HeaderClauseView| c_header_clause(mv, c)));
        }
        // compact the frames
        let ghost sv = frames_view(&sorted);
        let mut rest_f = sorted;
        let mut out_f: Vec<EntityFrame> = Vec::new();
        let nf = rest_f.len();
        for i in 0..nf
            invariant
                nf == sv.len(),
                rest_f@.len() == sv.len() - i,
                frames_view(&rest_f) == sv.skip(i as int),
                frames_view(&out_f) == sv.map_values(|e: EntityFrameView| c_frame(mv, e)).take(
                    i as int,
                ),
                mv == crate::context::pairs_view(&table),
        {
            let ghost prevr = frames_view(&rest_f);
            let ghost prevo = frames_view(&out_f);
            let e = rest_f.remove(0);
            proof {
                assert(e@ == prevr[0]);
                assert(frames_view(&rest_f) =~= prevr.skip(1));
                assert(prevr.skip(1) =~= sv.skip(i + 1));
            }
            out_f.push(compact_frame(&table, e));
            proof {
                assert(frames_view(&out_f) =~= prevo + seq![out_f@.last()@]);
                assert(sv.map_values(|e: EntityFrameView| c_frame(mv, e))[i as int] == c_frame(
                    mv,
                    sv[i as int],
                ));
                assert(sv.map_values(|e: EntityFrameView| c_frame(mv, e)).take(i + 1) =~= prevo
                    + seq![out_f@.last()@]);
            }
        }
        proof {
            assert(sv.map_values(|e: EntityFrameView| c_frame(mv, e)).take(nf as int)
                =~= sv.map_values(|e: EntityFrameView| c_frame(mv, e)));
        }
        let doc = OboDoc { header: HeaderFrame { clauses: out_h }, entities: out_f };
        proof {
            assert(Result::<OboDocView, SpecError>::Ok(doc@) =~~= spec_from_graph(gv));
        }
        Ok(doc)
    }
}

/// Trait to convert an OBO graph element into an OBO syntax node.
pub trait FromGraph<T>: Sized {
    /// Consumes the graph element and produces the syntax node.
    fn from_graph(source: T) -> Result<Self, Error>;
}

impl FromGraph<crate::model::Graph> for OboDoc {
    fn from_graph(source: crate::model::Graph) -> Result<OboDoc, Error> {
        OboDoc::from_graph(source)
    }
}

impl FromGraph<Meta> for HeaderFrame {
    fn from_graph(source: Meta) -> Result<HeaderFrame, Error> {
        HeaderFrame::from_graph(&source)
    }
}

impl FromGraph<SynonymPropertyValue> for Synonym {
    fn from_graph(source: SynonymPropertyValue) -> Result<Synonym, Error> {
        Synonym::from_graph(&source)
    }
}

impl FromGraph<XrefPropertyValue> for Xref {
    fn from_graph(source: XrefPropertyValue) -> Result<Xref, Error> {
        Xref::from_graph(&source)
    }
}

} // verus!
