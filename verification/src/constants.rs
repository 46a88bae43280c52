//! The fixed predicate URIs of the conversion tables: the `oboInOwl`
//! annotation properties, the IAO properties for replacement and
//! antisymmetry, the `rdfs` comment property and the Dublin Core creator
//! and date properties.

use vstd::prelude::*;

verus! {

pub open spec fn has_obo_format_version() -> Seq<char> {
    "http://www.geneontology.org/formats/oboInOwl#hasOBOFormatVersion"@
}

pub fn has_obo_format_version_str() -> (r: &'static str)
    ensures
        r@ == has_obo_format_version(),
{
    "http://www.geneontology.org/formats/oboInOwl#hasOBOFormatVersion"
}

pub open spec fn has_obo_namespace() -> Seq<char> {
    "http://www.geneontology.org/formats/oboInOwl#hasOBONamespace"@
}

pub fn has_obo_namespace_str() -> (r: &'static str)
    ensures
        r@ == has_obo_namespace(),
{
    "http://www.geneontology.org/formats/oboInOwl#hasOBONamespace"
}

pub open spec fn has_alternative_id() -> Seq<char> {
    "http://www.geneontology.org/formats/oboInOwl#hasAlternativeId"@
}

pub fn has_alternative_id_str() -> (r: &'static str)
    ensures
        r@ == has_alternative_id(),
{
    "http://www.geneontology.org/formats/oboInOwl#hasAlternativeId"
}

pub open spec fn has_date() -> Seq<char> {
    "http://www.geneontology.org/formats/oboInOwl#hasDate"@
}

pub fn has_date_str() -> (r: &'static str)
    ensures
        r@ == has_date(),
{
    "http://www.geneontology.org/formats/oboInOwl#hasDate"
}

pub open spec fn saved_by() -> Seq<char> {
    "http://www.geneontology.org/formats/oboInOwl#savedBy"@
}

pub fn saved_by_str() -> (r: &'static str)
    ensures
        r@ == saved_by(),
{
    "http://www.geneontology.org/formats/oboInOwl#savedBy"
}

pub open spec fn auto_generated_by() -> Seq<char> {
    "http://www.geneontology.org/formats/oboInOwl#autoGeneratedBy"@
}

pub fn auto_generated_by_str() -> (r: &'static str)
    ensures
        r@ == auto_generated_by(),
{
    "http://www.geneontology.org/formats/oboInOwl#autoGeneratedBy"
}

pub open spec fn has_default_namespace() -> Seq<char> {
    "http://www.geneontology.org/formats/oboInOwl#hasDefaultNamespace"@
}

pub fn has_default_namespace_str() -> (r: &'static str)
    ensures
        r@ == has_default_namespace(),
{
    "http://www.geneontology.org/formats/oboInOwl#hasDefaultNamespace"
}

pub open spec fn namespace_id_rule() -> Seq<char> {
    "http://www.geneontology.org/formats/oboInOwl#namespaceIdRule"@
}

pub fn namespace_id_rule_str() -> (r: &'static str)
    ensures
        r@ == namespace_id_rule(),
{
    "http://www.geneontology.org/formats/oboInOwl#namespaceIdRule"
}

pub open spec fn created_by() -> Seq<char> {
    "http://www.geneontology.org/formats/oboInOwl#created_by"@
}

pub fn created_by_str() -> (r: &'static str)
    ensures
        r@ == created_by(),
{
    "http://www.geneontology.org/formats/oboInOwl#created_by"
}

pub open spec fn creation_date() -> Seq<char> {
    "http://www.geneontology.org/formats/oboInOwl#creation_date"@
}

pub fn creation_date_str() -> (r: &'static str)
    ensures
        r@ == creation_date(),
{
    "http://www.geneontology.org/formats/oboInOwl#creation_date"
}

pub open spec fn consider() -> Seq<char> {
    "http://www.geneontology.org/formats/oboInOwl#consider"@
}

pub fn consider_str() -> (r: &'static str)
    ensures
        r@ == consider(),
{
    "http://www.geneontology.org/formats/oboInOwl#consider"
}

pub open spec fn shorthand() -> Seq<char> {
    "http://www.geneontology.org/formats/oboInOwl#shorthand"@
}

pub fn shorthand_str() -> (r: &'static str)
    ensures
        r@ == shorthand(),
{
    "http://www.geneontology.org/formats/oboInOwl#shorthand"
}

pub open spec fn is_cyclic() -> Seq<char> {
    "http://www.geneontology.org/formats/oboInOwl#is_cyclic"@
}

pub fn is_cyclic_str() -> (r: &'static str)
    ensures
        r@ == is_cyclic(),
{
    "http://www.geneontology.org/formats/oboInOwl#is_cyclic"
}

pub open spec fn is_class_level() -> Seq<char> {
    "http://www.geneontology.org/formats/oboInOwl#is_class_level"@
}

pub fn is_class_level_str() -> (r: &'static str)
    ensures
        r@ == is_class_level(),
{
    "http://www.geneontology.org/formats/oboInOwl#is_class_level"
}

pub open spec fn is_metadata_tag() -> Seq<char> {
    "http://www.geneontology.org/formats/oboInOwl#is_metadata_tag"@
}

pub fn is_metadata_tag_str() -> (r: &'static str)
    ensures
        r@ == is_metadata_tag(),
{
    "http://www.geneontology.org/formats/oboInOwl#is_metadata_tag"
}

pub open spec fn disjoint_over() -> Seq<char> {
    "http://www.geneontology.org/formats/oboInOwl#disjoint_over"@
}

pub fn disjoint_over_str() -> (r: &'static str)
    ensures
        r@ == disjoint_over(),
{
    "http://www.geneontology.org/formats/oboInOwl#disjoint_over"
}

pub open spec fn antisymmetric_property() -> Seq<char> {
    "http://purl.obolibrary.org/obo/IAO_0000427"@
}

pub fn antisymmetric_property_str() -> (r: &'static str)
    ensures
        r@ == antisymmetric_property(),
{
    "http://purl.obolibrary.org/obo/IAO_0000427"
}

pub open spec fn replaced_by() -> Seq<char> {
    "http://purl.obolibrary.org/obo/IAO_0100001"@
}

pub fn replaced_by_str() -> (r: &'static str)
    ensures
        r@ == replaced_by(),
{
    "http://purl.obolibrary.org/obo/IAO_0100001"
}

pub open spec fn rdfs_comment() -> Seq<char> {
    "http://www.w3.org/2000/01/rdf-schema#comment"@
}

pub fn rdfs_comment_str() -> (r: &'static str)
    ensures
        r@ == rdfs_comment(),
{
    "http://www.w3.org/2000/01/rdf-schema#comment"
}

pub open spec fn dc_creator() -> Seq<char> {
    "http://purl.org/dc/elements/1.1/creator"@
}

pub fn dc_creator_str() -> (r: &'static str)
    ensures
        r@ == dc_creator(),
{
    "http://purl.org/dc/elements/1.1/creator"
}

pub open spec fn dc_date() -> Seq<char> {
    "http://purl.org/dc/elements/1.1/date"@
}

pub fn dc_date_str() -> (r: &'static str)
    ensures
        r@ == dc_date(),
{
    "http://purl.org/dc/elements/1.1/date"
}

/// The fixed predicate of subclass edges.
pub open spec fn is_a_pred() -> Seq<char> {
    "is_a"@
}

/// Executable form of [`is_a_pred`].
pub fn is_a_pred_str() -> (r: &'static str)
    ensures
        r@ == is_a_pred(),
{
    "is_a"
}

/// The text of the four recognized synonym scope predicates.
pub open spec fn scope_pred(scope: crate::ast::SynonymScope) -> Seq<char> {
    match scope {
        crate::ast::SynonymScope::Broad => "hasBroadSynonym"@,
        crate::ast::SynonymScope::Exact => "hasExactSynonym"@,
        crate::ast::SynonymScope::Narrow => "hasNarrowSynonym"@,
        crate::ast::SynonymScope::Related => "hasRelatedSynonym"@,
    }
}

/// Executable form of [`scope_pred`].
pub fn scope_pred_str(scope: crate::ast::SynonymScope) -> (r: &'static str)
    ensures
        r@ == scope_pred(scope),
{
    match scope {
        crate::ast::SynonymScope::Broad => "hasBroadSynonym",
        crate::ast::SynonymScope::Exact => "hasExactSynonym",
        crate::ast::SynonymScope::Narrow => "hasNarrowSynonym",
        crate::ast::SynonymScope::Related => "hasRelatedSynonym",
    }
}

/// The two boolean texts accepted by the strict boolean parser.
pub open spec fn bool_text(b: bool) -> Seq<char> {
    if b {
        "true"@
    } else {
        "false"@
    }
}

/// Executable form of [`bool_text`].
pub fn bool_text_str(b: bool) -> (r: &'static str)
    ensures
        r@ == bool_text(b),
{
    if b {
        "true"
    } else {
        "false"
    }
}

} // verus!
