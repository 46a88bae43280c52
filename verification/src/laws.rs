//! General properties of the conversion, stated and proved over the same
//! specification functions that the executable functions' contracts use.

use vstd::prelude::*;

use crate::ast::{EntityFrameView, TermClauseView, TermFrameView};
use crate::context::{assoc_find, best_base, obo_base, seed_idspaces, spec_compact_uri};
use crate::error::SpecError;
use crate::from_graph::{
    spec_apply_edge, spec_eq_others, spec_ident, spec_synonym_of, table_index,
};
use crate::ident::IdentView;
use crate::model::{EdgeView, SynonymPvView};
use crate::parse::{alpha_char, parsed_ident, plain_char, plain_http_iri};
use crate::strutil::first_index_of;

verus! {

/// A subclass edge on a term subject: when the three identifier texts
/// parse, the predicate is the literal `is_a`, and the subject has a term
/// frame, the conversion adds exactly one IsA clause, whose object is the
/// parsed object identifier, at the end of that frame; every other frame
/// is untouched.
pub proof fn lemma_is_a_edge_on_term(t: Seq<EntityFrameView>, e: EdgeView, i: int)
    requires
        e.pred == "is_a"@,
        spec_ident(e.sub) is Ok,
        spec_ident(e.pred) is Ok,
        spec_ident(e.obj) is Ok,
        table_index(t, spec_ident(e.sub)->Ok_0) == i,
        0 <= i < t.len(),
        t[i] is Term,
    ensures
        spec_apply_edge(t, e) matches Ok(t2) && (match t[i] {
            EntityFrameView::Term { frame } => {
                let obj = spec_ident(e.obj)->Ok_0;
                &&& t2.len() == t.len()
                &&& t2[i] == (EntityFrameView::Term {
                    frame: TermFrameView {
                        id: frame.id,
                        clauses: frame.clauses.push(TermClauseView::IsA { id: obj }),
                    },
                })
                &&& (forall|j: int| 0 <= j < t.len() && j != i ==> t2[j] == t[j])
            },
            _ => false,
        }),
{
    let obj = spec_ident(e.obj)->Ok_0;
    match t[i] {
        EntityFrameView::Term { frame } => {
            let t2 = spec_apply_edge(t, e)->Ok_0;
            assert(t2 == t.update(
                i,
                EntityFrameView::Term {
                    frame: crate::from_graph::term_frame_push(
                        frame,
                        TermClauseView::IsA { id: obj },
                    ),
                },
            ));
        },
        _ => {
            assert(false);
        },
    }
}

/// Boundary: an edge whose subject identifier is absent from the frame
/// table produces no clause and no error, provided its identifier texts
/// parse — the table is returned unchanged.
pub proof fn lemma_dangling_edge_skipped(t: Seq<EntityFrameView>, e: EdgeView)
    requires
        spec_ident(e.sub) is Ok,
        spec_ident(e.pred) is Ok,
        spec_ident(e.obj) is Ok,
        table_index(t, spec_ident(e.sub)->Ok_0) == -1,
    ensures
        spec_apply_edge(t, e) == Result::<Seq<EntityFrameView>, SpecError>::Ok(t),
{
}

/// A synonym property value whose predicate is not one of the four
/// recognized scope keywords fails with the unrecognized-synonym-predicate
/// error carrying that exact predicate text.
pub proof fn lemma_unrecognized_synonym_scope(pv: SynonymPvView)
    requires
        pv.pred != "hasBroadSynonym"@,
        pv.pred != "hasExactSynonym"@,
        pv.pred != "hasNarrowSynonym"@,
        pv.pred != "hasRelatedSynonym"@,
    ensures
        spec_synonym_of(pv) == Result::<crate::ast::SynonymView, SpecError>::Err(
            SpecError::InvalidSynonymType { pred: pv.pred },
        ),
{
}

/// The number of equivalence partners of one member: in a set of `k`
/// distinct member texts whose identifiers all parse, each member gets
/// exactly `k - 1` partners, one per other member.
pub proof fn lemma_eq_others_count(ids: Seq<Seq<char>>, me: Seq<char>, j: int)
    requires
        0 <= j < ids.len(),
        ids[j] == me,
        forall|a: int, b: int|
            0 <= a < ids.len() && 0 <= b < ids.len() && a != b ==> ids[a] != ids[b],
        forall|a: int| 0 <= a < ids.len() ==> (#[trigger] spec_ident(ids[a])) is Ok,
    ensures
        spec_eq_others(ids, me) matches Ok(os) && os.len() == ids.len() - 1,
{
    lemma_eq_others_count_general(ids, me);
    lemma_count_eq_distinct(ids, me, j);
}

/// Helper: with every identifier parsing, the partner list exists and has
/// one entry per member text other than `me`.
proof fn lemma_eq_others_count_general(ids: Seq<Seq<char>>, me: Seq<char>)
    requires
        forall|a: int| 0 <= a < ids.len() ==> (#[trigger] spec_ident(ids[a])) is Ok,
    ensures
        spec_eq_others(ids, me) matches Ok(os) && os.len() == ids.len() - count_eq(ids, me),
    decreases ids.len(),
{
    if ids.len() > 0 {
        assert(spec_ident(ids[0]) is Ok);
        assert forall|a: int|
            0 <= a < ids.skip(1).len() implies (#[trigger] spec_ident(ids.skip(1)[a])) is Ok by {
            assert(ids.skip(1)[a] == ids[a + 1]);
        }
        lemma_eq_others_count_general(ids.skip(1), me);
    }
}

/// The number of occurrences of `me` in a list of texts.
pub open spec fn count_eq(ids: Seq<Seq<char>>, me: Seq<char>) -> int
    decreases ids.len(),
{
    if ids.len() == 0 {
        0
    } else {
        (if ids[0] == me {
            1int
        } else {
            0int
        }) + count_eq(ids.skip(1), me)
    }
}

/// In a list of pairwise-distinct texts containing `me`, `me` occurs
/// exactly once.
pub proof fn lemma_count_eq_distinct(ids: Seq<Seq<char>>, me: Seq<char>, j: int)
    requires
        0 <= j < ids.len(),
        ids[j] == me,
        forall|a: int, b: int|
            0 <= a < ids.len() && 0 <= b < ids.len() && a != b ==> ids[a] != ids[b],
    ensures
        count_eq(ids, me) == 1,
    decreases ids.len(),
{
    if j == 0 {
        lemma_count_eq_absent(ids.skip(1), me, 1, ids);
    } else {
        assert(ids[0] != me);
        assert forall|a: int, b: int|
            0 <= a < ids.skip(1).len() && 0 <= b < ids.skip(1).len() && a != b implies ids.skip(
            1,
        )[a] != ids.skip(1)[b] by {
            assert(ids.skip(1)[a] == ids[a + 1]);
            assert(ids.skip(1)[b] == ids[b + 1]);
        }
        assert(ids.skip(1)[j - 1] == ids[j]);
        lemma_count_eq_distinct(ids.skip(1), me, j - 1);
    }
}

/// Helper: a suffix of a pairwise-distinct list that starts after the one
/// occurrence of `me` contains no further occurrence.
proof fn lemma_count_eq_absent(rest: Seq<Seq<char>>, me: Seq<char>, off: int, full: Seq<Seq<char>>)
    requires
        off >= 1,
        rest.len() + off == full.len(),
        forall|a: int| 0 <= a < rest.len() ==> rest[a] == full[a + off],
        full[0] == me,
        forall|a: int, b: int|
            0 <= a < full.len() && 0 <= b < full.len() && a != b ==> full[a] != full[b],
    ensures
        count_eq(rest, me) == 0,
    decreases rest.len(),
{
    if rest.len() > 0 {
        assert(rest[0] == full[off]);
        assert(full[off] != full[0]);
        assert forall|a: int| 0 <= a < rest.skip(1).len() implies rest.skip(1)[a] == full[a + off
            + 1] by {
            assert(rest.skip(1)[a] == rest[a + 1]);
        }
        lemma_count_eq_absent(rest.skip(1), me, off + 1, full);
    }
}


/// Equivalent-node sets: for a set of `k` distinct member texts whose
/// identifiers all parse, a member with a term frame receives exactly
/// `k - 1` EquivalentTo clauses, one per other member of the set, appended
/// in set order; every other frame is untouched.
pub proof fn lemma_eq_member_clause_count(
    t: Seq<EntityFrameView>,
    ids: Seq<Seq<char>>,
    j: int,
    i: int,
)
    requires
        0 <= j < ids.len(),
        forall|a: int, b: int|
            0 <= a < ids.len() && 0 <= b < ids.len() && a != b ==> ids[a] != ids[b],
        forall|a: int| 0 <= a < ids.len() ==> (#[trigger] spec_ident(ids[a])) is Ok,
        table_index(t, spec_ident(ids[j])->Ok_0) == i,
        0 <= i < t.len(),
        t[i] is Term,
    ensures
        crate::from_graph::spec_apply_eq_member(t, ids, ids[j]) matches Ok(t2) && (match t[i] {
            EntityFrameView::Term { frame } => {
                &&& t2.len() == t.len()
                &&& t2[i] matches EntityFrameView::Term { frame: f2 } && f2.clauses.len()
                    == frame.clauses.len() + ids.len() - 1
                &&& (forall|a: int| 0 <= a < t.len() && a != i ==> t2[a] == t[a])
            },
            _ => false,
        }),
{
    lemma_eq_others_count(ids, ids[j], j);
    match t[i] {
        EntityFrameView::Term { frame } => {
            let os = spec_eq_others(ids, ids[j])->Ok_0;
            let t2 = crate::from_graph::spec_apply_eq_member(t, ids, ids[j])->Ok_0;
            assert(t2 == t.update(
                i,
                EntityFrameView::Term {
                    frame: TermFrameView {
                        id: frame.id,
                        clauses: frame.clauses + os.map_values(
                            |id: crate::ident::IdentView| TermClauseView::EquivalentTo { id },
                        ),
                    },
                },
            ));
        },
        _ => {
            assert(false);
        },
    }
}

// ---------------------------------------------------------------------
// Canonical identifiers and the expansion/compaction inverse
// ---------------------------------------------------------------------

/// A canonical compact identifier: an alphabetic prefix outside the three
/// built-in idspaces, and a local part of unreserved characters.
pub open spec fn canonical_ident(id: IdentView) -> bool {
    match id {
        IdentView::Prefixed { prefix, local } => {
            &&& prefix.len() > 0
            &&& (forall|i: int| 0 <= i < prefix.len() ==> alpha_char(#[trigger] prefix[i]))
            &&& prefix != "BFO"@
            &&& prefix != "RO"@
            &&& prefix != "xsd"@
            &&& (forall|i: int| 0 <= i < local.len() ==> plain_char(#[trigger] local[i]))
        },
        _ => false,
    }
}

/// The absolute URI a canonical identifier expands to under the OBO PURL
/// convention.
pub open spec fn canon_expansion(id: IdentView) -> Seq<char> {
    match id {
        IdentView::Prefixed { prefix, local } => obo_base() + prefix + seq!['_'] + local,
        _ => Seq::empty(),
    }
}

/// A canonical prefix is bound by none of the built-in idspaces.
pub proof fn lemma_seed_find_none(p: Seq<char>)
    requires
        p != "BFO"@,
        p != "RO"@,
        p != "xsd"@,
    ensures
        assoc_find(seed_idspaces(), p) is None,
{
    let m = seed_idspaces();
    assert(m[0] == ("BFO"@, obo_base() + "BFO_"@));
    assert(m.skip(1) =~= seq![("RO"@, obo_base() + "RO"@), ("xsd"@, crate::context::xsd_base())]);
    assert(m.skip(1)[0] == ("RO"@, obo_base() + "RO"@));
    assert(m.skip(1).skip(1) =~= seq![("xsd"@, crate::context::xsd_base())]);
    assert(m.skip(1).skip(1)[0] == ("xsd"@, crate::context::xsd_base()));
    assert(m.skip(1).skip(1).skip(1) =~= Seq::<(Seq<char>, Seq<char>)>::empty());
    assert(assoc_find(m.skip(1).skip(1).skip(1), p) is None);
    assert(assoc_find(m.skip(1).skip(1), p) is None);
    assert(assoc_find(m.skip(1), p) is None);
}

/// A context whose idspace table is the built-in seed expands a canonical
/// identifier by the OBO PURL convention.
pub proof fn lemma_expand_canonical(ctx: crate::context::ContextView, id: IdentView)
    requires
        canonical_ident(id),
        ctx.idspaces == seed_idspaces(),
    ensures
        crate::context::spec_expand(ctx, id) == canon_expansion(id),
{
    match id {
        IdentView::Prefixed { prefix, local } => {
            lemma_seed_find_none(prefix);
        },
        _ => (),
    }
}

/// The expansion of a canonical identifier is a plain `http://` IRI, so
/// the identifier grammar reads it back as a URL identifier verbatim.
pub proof fn lemma_canon_expansion_plain(id: IdentView)
    requires
        canonical_ident(id),
    ensures
        plain_http_iri(canon_expansion(id)),
{
    match id {
        IdentView::Prefixed { prefix, local } => {
            let s = canon_expansion(id);
            proof_strlits();
            let base = obo_base();
            assert(base.len() == 31);
            assert(s.len() == 31 + prefix.len() + 1 + local.len());
            assert(s.subrange(0, 7) =~= "http://"@);
            assert(alpha_char(s[7]));
            assert(s[26] == '/');
            assert forall|i: int| 7 <= i < 26 implies plain_char(s[i]) by {
                assert(s[i] == base[i]);
            }
            assert(8 <= 26 < s.len() && s[26] == '/' && (forall|i: int|
                7 <= i < 26 ==> plain_char(s[i])));
            assert forall|i: int| 7 <= i < s.len() implies (plain_char(s[i]) || s[i] == '/'
                || s[i] == '#') by {
                if i < 31 {
                    assert(s[i] == base[i]);
                } else if i < 31 + prefix.len() {
                    assert(s[i] == prefix[i - 31]);
                } else if i == 31 + prefix.len() {
                    assert(s[i] == '_');
                } else {
                    assert(s[i] == local[i - 31 - prefix.len() - 1]);
                }
            }
            assert forall|i: int, j: int|
                7 <= i < s.len() && 7 <= j < s.len() && s[i] == '#' && s[j] == '#' implies i
                == j by {
                assert(!(s[i] == '#'));
            }
        },
        _ => (),
    }
}

/// Reveals the string literals that the canonical-identifier proofs take
/// apart character by character.
proof fn proof_strlits()
    ensures
        obo_base().len() == 31,
        "http://"@.len() == 7,
        forall|i: int| 0 <= i < 7 ==> obo_base()[i] == "http://"@[i],
        obo_base()[4] == ':',
        obo_base()[5] == '/',
        obo_base()[6] == '/',
        obo_base()[7] == 'p',
        obo_base()[26] == '/',
        obo_base()[30] == '/',
        forall|i: int|
            7 <= i < 31 && i != 26 && i != 30 ==> plain_char(#[trigger] obo_base()[i]),
        forall|i: int| 0 <= i < 31 ==> obo_base()[i] != '#' && obo_base()[i] != '_',
{
    reveal_strlit("http://purl.obolibrary.org/obo/");
    reveal_strlit("http://");
}

/// Compaction against a table with no declared idspaces factorizes the
/// expansion of a canonical identifier back to that identifier.
pub proof fn lemma_compact_canon(id: IdentView)
    requires
        canonical_ident(id),
    ensures
        spec_compact_uri(Seq::empty(), canon_expansion(id)) == id,
{
    match id {
        IdentView::Prefixed { prefix, local } => {
            let s = canon_expansion(id);
            proof_strlits();
            assert(best_base(Seq::empty(), s) is None);
            assert(obo_base().is_prefix_of(s)) by {
                assert(s.subrange(0, 31) =~= obo_base());
            }
            let raw = s.skip(31);
            assert(raw =~= prefix + seq!['_'] + local);
            assert(raw[prefix.len() as int] == '_');
            assert forall|j: int| 0 <= j < prefix.len() implies raw[j] != '_' by {
                assert(raw[j] == prefix[j]);
                assert(alpha_char(prefix[j]));
            }
            crate::strutil::lemma_first_index_of_at(raw, '_', prefix.len() as int);
            assert(first_index_of(raw, '_') == prefix.len() as int);
            assert(assoc_find(Seq::<(Seq<char>, Seq<char>)>::empty(), raw.take(
                prefix.len() as int,
            )) is None);
            assert(raw.take(prefix.len() as int) =~= prefix);
            assert(raw.skip(prefix.len() as int + 1) =~= local);
        },
        _ => (),
    }
}

/// The canonical expansion, taken as identifier text and parsed back,
/// round-trips through compaction to the original identifier. The parse
/// equation is the one the identifier wrapper's contract establishes at
/// every call on a plain `http://` IRI.
pub proof fn lemma_ident_round_trip(id: IdentView)
    requires
        canonical_ident(id),
        parsed_ident(canon_expansion(id)) == Some(
            IdentView::Url { uri: canon_expansion(id) },
        ),
    ensures
        spec_ident(canon_expansion(id)) == Result::<IdentView, SpecError>::Ok(
            IdentView::Url { uri: canon_expansion(id) },
        ),
        crate::context::spec_compact(
            Seq::empty(),
            spec_ident(canon_expansion(id))->Ok_0,
        ) == id,
{
    lemma_compact_canon(id);
}

// ---------------------------------------------------------------------
// The round trip over the reduced feature set
// ---------------------------------------------------------------------

/// A canonical identifier together with the parse equation its expansion
/// satisfies; the equation is the one the identifier wrapper's contract
/// establishes at every call on a plain `http://` IRI (see
/// [`lemma_canon_expansion_plain`]).
pub open spec fn grammar_canonical(id: IdentView) -> bool {
    &&& canonical_ident(id)
    &&& parsed_ident(canon_expansion(id)) == Some(
        IdentView::Url { uri: canon_expansion(id) },
    )
}

/// The clause shapes of the reduced round trip: subclass and relationship
/// clauses over canonical identifiers.
pub open spec fn reduced_edge_clause(c: TermClauseView) -> bool {
    match c {
        TermClauseView::IsA { id } => grammar_canonical(id),
        TermClauseView::Relationship { rel, id } => grammar_canonical(rel)
            && grammar_canonical(id),
        _ => false,
    }
}

/// A reduced term frame: a canonical identifier, an optional Name clause
/// first, then only subclass and relationship clauses.
pub open spec fn reduced_term_frame(f: TermFrameView) -> bool {
    &&& grammar_canonical(f.id)
    &&& (forall|j: int|
        0 < j < f.clauses.len() ==> reduced_edge_clause(#[trigger] f.clauses[j]))
    &&& (f.clauses.len() > 0 ==> (reduced_edge_clause(f.clauses[0]) || f.clauses[0] is Name))
}

/// The edge a reduced clause produces.
pub open spec fn clause_edge(cur: Seq<char>, c: TermClauseView) -> EdgeView {
    match c {
        TermClauseView::IsA { id } => crate::into_graph::edge_from(
            cur,
            "is_a"@,
            canon_expansion(id),
        ),
        TermClauseView::Relationship { rel, id } => crate::into_graph::edge_from(
            cur,
            canon_expansion(rel),
            canon_expansion(id),
        ),
        _ => crate::into_graph::edge_from(cur, "is_a"@, Seq::empty()),
    }
}

/// The edges of the first `i` clauses of a reduced frame.
pub open spec fn frag_edges(cur: Seq<char>, cls: Seq<TermClauseView>, i: int) -> Seq<EdgeView>
    decreases i,
{
    if i <= 0 {
        Seq::empty()
    } else if cls[i - 1] is Name {
        frag_edges(cur, cls, i - 1)
    } else {
        frag_edges(cur, cls, i - 1).push(clause_edge(cur, cls[i - 1]))
    }
}

/// The clauses of an empty metadata block: none.
proof fn lemma_meta_term_clauses_empty()
    ensures
        crate::from_graph::spec_meta_term_clauses(crate::model::Meta::empty_view())
            == Result::<Seq<TermClauseView>, SpecError>::Ok(Seq::<TermClauseView>::empty()),
{
    let m = crate::model::Meta::empty_view();
    assert(crate::from_graph::spec_meta_parts(m) == Result::<
        crate::from_graph::MetaPartsView,
        SpecError,
    >::Ok(
        crate::from_graph::MetaPartsView {
            def: None,
            subsets: Seq::empty(),
            xrefs: Seq::empty(),
            synonyms: Seq::empty(),
        },
    ));
    assert(crate::from_graph::spec_meta_term_clauses(m)->Ok_0 =~= Seq::<TermClauseView>::empty());
}

/// The expansion of a canonical identifier is none of the four predicate
/// keywords (it is far longer than any of them).
proof fn lemma_canon_not_keyword(id: IdentView)
    requires
        canonical_ident(id),
    ensures
        canon_expansion(id) != "is_a"@,
        canon_expansion(id) != "subPropertyOf"@,
        canon_expansion(id) != "subClassOf"@,
        canon_expansion(id) != "inverseOf"@,
{
    proof_strlits();
    reveal_strlit("is_a");
    reveal_strlit("subPropertyOf");
    reveal_strlit("subClassOf");
    reveal_strlit("inverseOf");
    match id {
        IdentView::Prefixed { prefix, local } => {
            assert(canon_expansion(id).len() >= 33);
        },
        _ => (),
    }
}

/// The fragment state of a reduced frame: the label from a leading Name
/// clause, empty metadata, and one edge per remaining clause, in order.
proof fn lemma_term_frag_reduced(
    ctx: crate::context::ContextView,
    cur: Seq<char>,
    f: TermFrameView,
    i: int,
)
    requires
        ctx.idspaces == seed_idspaces(),
        reduced_term_frame(f),
        0 <= i <= f.clauses.len(),
    ensures
        crate::into_graph::term_frag_partial(ctx, cur, f.clauses, i) == (crate::into_graph::FragView {
            label: if i > 0 && f.clauses[0] is Name {
                Some(f.clauses[0]->Name_name)
            } else {
                None
            },
            meta: crate::model::Meta::empty_view(),
            edges: frag_edges(cur, f.clauses, i),
            dra: Seq::empty(),
        }),
    decreases i,
{
    let cls = f.clauses;
    if i == 0 {
        assert(cls.take(0) =~= Seq::<TermClauseView>::empty());
        assert(crate::into_graph::term_frag_partial(ctx, cur, cls, 0)
            =~= crate::into_graph::empty_frag());
    } else {
        lemma_term_frag_reduced(ctx, cur, f, i - 1);
        assert(cls.take(i).drop_last() =~= cls.take(i - 1));
        assert(cls.take(i).last() == cls[i - 1]);
        let pre = crate::into_graph::term_frag_partial(ctx, cur, cls, i - 1);
        match cls[i - 1] {
            TermClauseView::Name { name } => {
                assert(i - 1 == 0);
            },
            TermClauseView::IsA { id } => {
                lemma_expand_canonical(ctx, id);
                assert(crate::into_graph::term_frag_partial(ctx, cur, cls, i)
                    =~= crate::into_graph::FragView {
                    edges: pre.edges.push(clause_edge(cur, cls[i - 1])),
                    ..pre
                });
            },
            TermClauseView::Relationship { rel, id } => {
                lemma_expand_canonical(ctx, rel);
                lemma_expand_canonical(ctx, id);
                assert(crate::into_graph::term_frag_partial(ctx, cur, cls, i)
                    =~= crate::into_graph::FragView {
                    edges: pre.edges.push(clause_edge(cur, cls[i - 1])),
                    ..pre
                });
            },
            _ => {
                assert(false);
            },
        }
    }
}

/// The clause an attached edge reconstructs, before compaction.
pub open spec fn attached_clause(e: EdgeView) -> TermClauseView {
    if e.pred == "is_a"@ {
        TermClauseView::IsA { id: IdentView::Url { uri: e.obj } }
    } else {
        TermClauseView::Relationship {
            rel: IdentView::Url { uri: e.pred },
            id: IdentView::Url { uri: e.obj },
        }
    }
}

/// An edge the reduced round trip can attach: its subject is the one
/// frame's URI, its three texts parse (the subject and object to URL
/// identifiers verbatim), and its predicate is either the subclass keyword
/// or a URI that is none of the four keywords.
pub open spec fn good_edge(e: EdgeView, u: Seq<char>) -> bool {
    &&& e.sub == u
    &&& spec_ident(e.sub) == Result::<IdentView, SpecError>::Ok(IdentView::Url { uri: u })
    &&& spec_ident(e.pred) is Ok
    &&& spec_ident(e.obj) == Result::<IdentView, SpecError>::Ok(
        IdentView::Url { uri: e.obj },
    )
    &&& (e.pred == "is_a"@ || (e.pred != "is_a"@ && e.pred != "subPropertyOf"@ && e.pred
        != "subClassOf"@ && e.pred != "inverseOf"@ && spec_ident(e.pred) == Result::<
        IdentView,
        SpecError,
    >::Ok(IdentView::Url { uri: e.pred })))
}

/// Attaching a run of good edges to a one-frame table appends one clause
/// per edge, in edge order.
proof fn lemma_edges_attach(f: TermFrameView, u: Seq<char>, es: Seq<EdgeView>)
    requires
        f.id == (IdentView::Url { uri: u }),
        forall|j: int| 0 <= j < es.len() ==> good_edge(#[trigger] es[j], u),
    ensures
        crate::from_graph::spec_edges_pass(seq![EntityFrameView::Term { frame: f }], es)
            == Result::<Seq<EntityFrameView>, SpecError>::Ok(
            seq![
                EntityFrameView::Term {
                    frame: TermFrameView {
                        id: f.id,
                        clauses: f.clauses + es.map_values(
                            |e: EdgeView| attached_clause(e),
                        ),
                    },
                },
            ],
        ),
    decreases es.len(),
{
    let t = seq![EntityFrameView::Term { frame: f }];
    if es.len() == 0 {
        assert(f.clauses + es.map_values(|e: EdgeView| attached_clause(e)) =~= f.clauses);
        assert(t =~= seq![
            EntityFrameView::Term {
                frame: TermFrameView {
                    id: f.id,
                    clauses: f.clauses + es.map_values(|e: EdgeView| attached_clause(e)),
                },
            },
        ]);
    } else {
        let e0 = es[0];
        assert(good_edge(e0, u));
        assert(table_index(t, IdentView::Url { uri: u }) == 0);
        let f2 = TermFrameView { id: f.id, clauses: f.clauses.push(attached_clause(e0)) };
        assert(spec_apply_edge(t, e0) == Result::<Seq<EntityFrameView>, SpecError>::Ok(
            seq![EntityFrameView::Term { frame: f2 }],
        )) by {
            if e0.pred == "is_a"@ {
                assert(t.update(0, EntityFrameView::Term {
                    frame: crate::from_graph::term_frame_push(
                        f,
                        TermClauseView::IsA { id: spec_ident(e0.obj)->Ok_0 },
                    ),
                }) =~= seq![EntityFrameView::Term { frame: f2 }]);
            } else {
                assert(t.update(0, EntityFrameView::Term {
                    frame: crate::from_graph::term_frame_push(
                        f,
                        TermClauseView::Relationship {
                            rel: spec_ident(e0.pred)->Ok_0,
                            id: spec_ident(e0.obj)->Ok_0,
                        },
                    ),
                }) =~= seq![EntityFrameView::Term { frame: f2 }]);
            }
        }
        assert forall|j: int| 0 <= j < es.skip(1).len() implies good_edge(
            #[trigger] es.skip(1)[j],
            u,
        ) by {
            assert(es.skip(1)[j] == es[j + 1]);
        }
        lemma_edges_attach(f2, u, es.skip(1));
        assert(f2.clauses + es.skip(1).map_values(|e: EdgeView| attached_clause(e))
            =~= f.clauses + es.map_values(|e: EdgeView| attached_clause(e)));
    }
}


/// The offset of the edge clauses in a reduced frame: one when a Name
/// clause leads, zero otherwise.
pub open spec fn name_offset(cls: Seq<TermClauseView>) -> int {
    if cls.len() > 0 && cls[0] is Name {
        1
    } else {
        0
    }
}

/// The edges of a reduced frame, indexed: one per clause after the
/// optional Name, in clause order.
proof fn lemma_frag_edges_index(cur: Seq<char>, f: TermFrameView, i: int)
    requires
        reduced_term_frame(f),
        0 <= i <= f.clauses.len(),
    ensures
        frag_edges(cur, f.clauses, i).len() == i - (if i == 0 {
            0
        } else {
            name_offset(f.clauses)
        }),
        forall|k: int|
            0 <= k < frag_edges(cur, f.clauses, i).len() ==> frag_edges(cur, f.clauses, i)[k]
                == clause_edge(cur, f.clauses[k + name_offset(f.clauses)]),
    decreases i,
{
    if i > 0 {
        lemma_frag_edges_index(cur, f, i - 1);
        if f.clauses[i - 1] is Name {
            assert(i - 1 == 0);
        }
    }
}

/// Every edge of a reduced frame is attachable.
proof fn lemma_frag_edges_good(cur: Seq<char>, f: TermFrameView, i: int)
    requires
        reduced_term_frame(f),
        0 <= i <= f.clauses.len(),
        cur == canon_expansion(f.id),
        parsed_ident("is_a"@) is Some,
    ensures
        forall|k: int|
            0 <= k < frag_edges(cur, f.clauses, i).len() ==> good_edge(
                #[trigger] frag_edges(cur, f.clauses, i)[k],
                cur,
            ),
{
    lemma_frag_edges_index(cur, f, i);
    let off = name_offset(f.clauses);
    assert forall|k: int| 0 <= k < frag_edges(cur, f.clauses, i).len() implies good_edge(
        #[trigger] frag_edges(cur, f.clauses, i)[k],
        cur,
    ) by {
        let c = f.clauses[k + off];
        assert(reduced_edge_clause(c));
        match c {
            TermClauseView::IsA { id } => {
                lemma_canon_not_keyword(id);
            },
            TermClauseView::Relationship { rel, id } => {
                lemma_canon_not_keyword(rel);
                lemma_canon_not_keyword(id);
            },
            _ => (),
        }
    }
}

/// Trimming a suffix that does not end the string changes nothing.
proof fn lemma_trim_end_noop(s: Seq<char>, suf: Seq<char>)
    requires
        !suf.is_suffix_of(s),
    ensures
        crate::from_graph::trim_end_all(s, suf) == s,
{
}

/// Round trip over the reduced feature set, for a document of one term
/// frame: a header holding exactly an ontology-name clause of alphabetic
/// text, and a frame with a canonical identifier, an optional leading Name
/// clause and subclass/relationship clauses over canonical identifiers,
/// converted to a graph and back, come out unchanged. The two parse
/// equations required (for the `is_a` keyword and for each canonical
/// expansion, folded into `grammar_canonical`) are the ones the identifier
/// wrapper's contract establishes at every call on such text.
#[verifier::rlimit(100)]
#[verifier::spinoff_prover]
pub proof fn lemma_round_trip_reduced(doc: crate::ast::OboDocView)
    requires
        doc.header.clauses.len() == 1,
        doc.header.clauses[0] matches crate::ast::HeaderClauseView::Ontology { v } && v.len() > 0
            && (forall|i: int| 0 <= i < v.len() ==> alpha_char(#[trigger] v[i])),
        doc.entities.len() == 1,
        doc.entities[0] matches EntityFrameView::Term { frame } && reduced_term_frame(frame),
        parsed_ident("is_a"@) is Some,
    ensures
        crate::into_graph::spec_into_graph(doc).graphs.len() == 1,
        crate::from_graph::spec_from_graph(crate::into_graph::spec_into_graph(doc).graphs[0])
            == Result::<crate::ast::OboDocView, SpecError>::Ok(doc),
{
    reveal_with_fuel(Seq::fold_left, 3);
    reveal_with_fuel(crate::from_graph::spec_nodes_pass, 3);
    reveal_with_fuel(crate::from_graph::spec_edges_pass, 2);
    reveal_with_fuel(crate::from_graph::spec_eq_pass, 2);
    reveal_with_fuel(crate::from_graph::spec_dr_pass, 2);
    let hcls = doc.header.clauses;
    let v = hcls[0]->Ontology_v;
    let frame = doc.entities[0]->Term_frame;
    let ctx = crate::context::ctx_of_header(hcls);

    // the context the one-clause header determines
    assert(hcls.drop_last() =~= Seq::<crate::ast::HeaderClauseView>::empty());
    assert(hcls.last() == hcls[0]);
    let iri = obo_base() + v + ".owl"@;
    assert(ctx =~= crate::context::ContextView {
        idspaces: seed_idspaces(),
        ontology_iri: iri,
        shorthands: Seq::empty(),
    });

    // the header's metadata is empty
    assert(crate::into_graph::spec_header_meta(ctx, doc.header) =~= crate::model::Meta::empty_view())
        by {
        assert(hcls.take(1).drop_last() =~= Seq::<crate::ast::HeaderClauseView>::empty());
        assert(hcls.take(1).last() == hcls[0]);
    }

    // the one fragment
    let u = canon_expansion(frame.id);
    lemma_expand_canonical(ctx, frame.id);
    lemma_term_frag_reduced(ctx, u, frame, frame.clauses.len() as int);
    let es = frag_edges(u, frame.clauses, frame.clauses.len() as int);
    let label = if frame.clauses.len() > 0 && frame.clauses[0] is Name {
        Some(frame.clauses[0]->Name_name)
    } else {
        None
    };
    let node = crate::model::NodeView {
        id: u,
        meta: Some(crate::model::Meta::empty_view()),
        ty: Some(crate::model::NodeType::Class),
        label,
    };
    let g = crate::into_graph::spec_into_graph(doc).graphs[0];
    assert(g =~~= crate::model::GraphView {
        nodes: seq![node],
        edges: es,
        id: iri,
        label: None,
        meta: crate::model::Meta::empty_view(),
        equivalent_nodes_sets: Seq::empty(),
        logical_definition_axioms: Seq::empty(),
        domain_range_axioms: Seq::empty(),
        property_chain_axioms: Seq::empty(),
    }) by {
        assert(doc.entities.take(1).drop_last() =~= Seq::<EntityFrameView>::empty());
        assert(doc.entities.take(1).last() == doc.entities[0]);
        assert(crate::into_graph::doc_graph_partial(ctx, doc, 0) =~~= crate::into_graph::spec_header_graph(
            ctx,
            doc.header,
        ));
    }

    // nodes: one term frame keyed by the expansion
    lemma_meta_term_clauses_empty();
    let name_cls: Seq<TermClauseView> = match node.label {
        Some(l) => seq![TermClauseView::Name { name: l }],
        None => Seq::<TermClauseView>::empty(),
    };
    let f1 = TermFrameView { id: IdentView::Url { uri: u }, clauses: name_cls + Seq::empty() };
    assert(crate::from_graph::spec_node_frame(node) == Result::<
        Option<EntityFrameView>,
        SpecError,
    >::Ok(Some(EntityFrameView::Term { frame: f1 })));
    let t1 = seq![EntityFrameView::Term { frame: f1 }];
    assert(crate::from_graph::spec_nodes_pass(Seq::empty(), g.nodes) == Result::<
        Seq<EntityFrameView>,
        SpecError,
    >::Ok(t1)) by {
        assert(g.nodes[0] == node);
        assert(g.nodes.skip(1) =~= Seq::<crate::model::NodeView>::empty());
        assert(crate::from_graph::table_insert(Seq::empty(), EntityFrameView::Term { frame: f1 })
            =~= t1);
    }

    // edges: one clause per edge, in order
    lemma_frag_edges_good(u, frame, frame.clauses.len() as int);
    lemma_edges_attach(f1, u, es);
    let f2 = TermFrameView {
        id: f1.id,
        clauses: f1.clauses + es.map_values(|e: EdgeView| attached_clause(e)),
    };
    let t2 = seq![EntityFrameView::Term { frame: f2 }];
    assert(crate::from_graph::spec_edges_pass(t1, g.edges) == Result::<
        Seq<EntityFrameView>,
        SpecError,
    >::Ok(t2));

    // no equivalence sets, no domain/range axioms
    assert(crate::from_graph::spec_eq_pass(t2, g.equivalent_nodes_sets) == Result::<
        Seq<EntityFrameView>,
        SpecError,
    >::Ok(t2));
    assert(crate::from_graph::spec_dr_pass(t2, g.domain_range_axioms) == Result::<
        Seq<EntityFrameView>,
        SpecError,
    >::Ok(t2));

    // the header, rebuilt: empty metadata plus the derived ontology name
    assert(crate::from_graph::spec_header_of_meta(g.meta) == Result::<
        Seq<crate::ast::HeaderClauseView>,
        SpecError,
    >::Ok(Seq::empty())) by {
        assert(g.meta.comments.map_values(
            |t: Seq<char>| crate::ast::HeaderClauseView::Remark { v: t },
        ) + Seq::<crate::ast::HeaderClauseView>::empty() =~= Seq::<
            crate::ast::HeaderClauseView,
        >::empty());
    }
    let hback = crate::from_graph::spec_header_extra(g.id, g.meta.version);
    assert(hback =~= hcls) by {
        reveal_strlit(".owl");
        reveal_strlit(".obo");
        proof_strlits();
        assert(obo_base().is_prefix_of(iri)) by {
            assert(iri.subrange(0, 31) =~= obo_base());
        }
        let ont0 = iri.skip(31);
        assert(ont0 =~= v + ".owl"@);
        assert(!(".obo"@.is_suffix_of(ont0))) by {
            assert(ont0.len() >= 4);
            assert(ont0[ont0.len() - 1] == 'l');
            if ".obo"@.is_suffix_of(ont0) {
                assert(ont0.skip(ont0.len() - 4)[3] == ont0[ont0.len() - 1]);
            }
        }
        lemma_trim_end_noop(ont0, ".obo"@);
        assert(".owl"@.is_suffix_of(ont0)) by {
            assert(ont0.skip(ont0.len() - 4) =~= ".owl"@);
        }
        assert(ont0.take(ont0.len() - 4) =~= v);
        assert(!(".owl"@.is_suffix_of(v))) by {
            if ".owl"@.is_suffix_of(v) {
                assert(v.skip(v.len() - 4)[0] == v[v.len() - 4]);
                assert(alpha_char(v[v.len() - 4]));
            }
        }
        lemma_trim_end_noop(v, ".owl"@);
        assert(crate::from_graph::trim_end_all(ont0, ".owl"@) == v);
        assert(g.meta.version is None);
    }

    // the frames sorted: a single frame is already in order
    assert(crate::from_graph::spec_sort_frames(t2) =~= t2) by {
        assert(t2.drop_last() =~= Seq::<EntityFrameView>::empty());
        assert(t2.last() == t2[0]);
        assert(crate::from_graph::sort_insert(Seq::empty(), t2[0]) =~= t2);
    }

    // the assembled header declares no idspaces
    let hall = Seq::<crate::ast::HeaderClauseView>::empty() + hback;
    assert(hall =~= hcls);
    assert(crate::from_graph::idspaces_of_header(hall) =~= Seq::<(Seq<char>, Seq<char>)>::empty())
        by {
        assert(hall.drop_last() =~= Seq::<crate::ast::HeaderClauseView>::empty());
        assert(hall.last() == hcls[0]);
    }

    // compaction gives the canonical identifiers back
    let m0 = Seq::<(Seq<char>, Seq<char>)>::empty();
    lemma_frag_edges_index(u, frame, frame.clauses.len() as int);
    let off = name_offset(frame.clauses);
    assert forall|j: int| 0 <= j < f2.clauses.len() implies crate::from_graph::c_term_clause(
        m0,
        #[trigger] f2.clauses[j],
    ) == frame.clauses[j] by {
        if j < off {
            assert(f2.clauses[j] == frame.clauses[0]);
        } else {
            assert(f2.clauses[j] == attached_clause(es[j - off]));
            let c = frame.clauses[j];
            assert(es[j - off] == clause_edge(u, c));
            match c {
                TermClauseView::IsA { id } => {
                    lemma_canon_not_keyword(id);
                    lemma_compact_canon(id);
                },
                TermClauseView::Relationship { rel, id } => {
                    lemma_canon_not_keyword(rel);
                    lemma_compact_canon(rel);
                    lemma_compact_canon(id);
                },
                _ => (),
            }
        }
    }
    lemma_compact_canon(frame.id);
    assert(crate::from_graph::c_frame(m0, t2[0]) =~~= doc.entities[0]) by {
        assert(f2.clauses.map_values(
            |c: TermClauseView| crate::from_graph::c_term_clause(m0, c),
        ) =~= frame.clauses);
    }

    // assemble
    let result = crate::from_graph::spec_from_graph(g);
    assert(result matches Ok(d2) && d2 =~~= doc) by {
        assert(hall.map_values(
            |c: crate::ast::HeaderClauseView| crate::from_graph::c_header_clause(m0, c),
        ) =~= hcls);
        assert(t2.map_values(|e: EntityFrameView| crate::from_graph::c_frame(m0, e))
            =~= doc.entities);
    }
}

/// A cross-reference of the reduced feature set: a canonical identifier
/// and no description.
pub open spec fn reduced_xref(x: crate::ast::XrefView) -> bool {
    grammar_canonical(x.id) && x.description is None
}

/// A cross-reference round-trips: mapped to its graph property value, read
/// back and compacted against an empty table, it comes out unchanged.
pub proof fn lemma_xref_round_trip(ctx: crate::context::ContextView, x: crate::ast::XrefView)
    requires
        ctx.idspaces == seed_idspaces(),
        reduced_xref(x),
    ensures
        crate::from_graph::spec_xref_of(crate::into_graph::spec_xref_pv(ctx, x)) matches Ok(x2)
            && crate::from_graph::c_xref(Seq::empty(), x2) == x,
{
    lemma_expand_canonical(ctx, x.id);
    lemma_compact_canon(x.id);
}

/// A synonym of the reduced feature set: no synonym type, and reduced
/// cross-references.
pub open spec fn reduced_synonym(s: crate::ast::SynonymView) -> bool {
    s.ty is None && (forall|j: int| 0 <= j < s.xrefs.len() ==> reduced_xref(#[trigger] s.xrefs[j]))
}

/// The parsed, still-absolute cross-references of a reduced list.
proof fn lemma_xref_ids_round(ctx: crate::context::ContextView, xs: Seq<crate::ast::XrefView>)
    requires
        ctx.idspaces == seed_idspaces(),
        forall|j: int| 0 <= j < xs.len() ==> reduced_xref(#[trigger] xs[j]),
    ensures
        crate::from_graph::spec_xrefs_of(crate::into_graph::spec_xref_ids(ctx, xs)) matches Ok(
            back,
        ) && back.len() == xs.len() && (forall|j: int|
            0 <= j < xs.len() ==> crate::from_graph::c_xref(Seq::empty(), #[trigger] back[j])
                == xs[j]),
    decreases xs.len(),
{
    let vals = crate::into_graph::spec_xref_ids(ctx, xs);
    if xs.len() == 0 {
        assert(vals.len() == 0);
    } else {
        lemma_expand_canonical(ctx, xs[0].id);
        lemma_compact_canon(xs[0].id);
        assert forall|j: int| 0 <= j < xs.skip(1).len() implies reduced_xref(
            #[trigger] xs.skip(1)[j],
        ) by {
            assert(xs.skip(1)[j] == xs[j + 1]);
        }
        lemma_xref_ids_round(ctx, xs.skip(1));
        assert(vals[0] == canon_expansion(xs[0].id));
        assert(vals.skip(1) =~= crate::into_graph::spec_xref_ids(ctx, xs.skip(1)));
        let back = crate::from_graph::spec_xrefs_of(vals)->Ok_0;
        let back1 = crate::from_graph::spec_xrefs_of(vals.skip(1))->Ok_0;
        assert(back =~= seq![
            crate::ast::XrefView {
                id: IdentView::Url { uri: canon_expansion(xs[0].id) },
                description: None,
            },
        ] + back1);
        assert forall|j: int| 0 <= j < xs.len() implies crate::from_graph::c_xref(
            Seq::empty(),
            #[trigger] back[j],
        ) == xs[j] by {
            if j > 0 {
                assert(back[j] == back1[j - 1]);
                assert(xs.skip(1)[j - 1] == xs[j]);
            } else {
                assert(xs[0] =~= crate::ast::XrefView { id: xs[0].id, description: None });
            }
        }
    }
}

/// A synonym round-trips: mapped to its graph property value, read back
/// and compacted against an empty table, it comes out unchanged.
pub proof fn lemma_synonym_round_trip(
    ctx: crate::context::ContextView,
    s: crate::ast::SynonymView,
)
    requires
        ctx.idspaces == seed_idspaces(),
        reduced_synonym(s),
    ensures
        spec_synonym_of(crate::into_graph::spec_synonym_pv(ctx, s)) matches Ok(s2)
            && crate::from_graph::c_syn(Seq::empty(), s2) == s,
{
    reveal_strlit("hasBroadSynonym");
    reveal_strlit("hasExactSynonym");
    reveal_strlit("hasNarrowSynonym");
    reveal_strlit("hasRelatedSynonym");
    let pv = crate::into_graph::spec_synonym_pv(ctx, s);
    assert("hasBroadSynonym"@[3] == 'B' && "hasExactSynonym"@[3] == 'E' && "hasNarrowSynonym"@[3]
        == 'N' && "hasRelatedSynonym"@[3] == 'R');
    assert(crate::from_graph::spec_scope(pv.pred) == Result::<
        crate::ast::SynonymScope,
        SpecError,
    >::Ok(s.scope));
    lemma_xref_ids_round(ctx, s.xrefs);
    let s2 = spec_synonym_of(pv)->Ok_0;
    assert(crate::from_graph::c_syn(Seq::empty(), s2) =~~= s) by {
        let back = crate::from_graph::spec_xrefs_of(pv.xrefs)->Ok_0;
        assert(back.map_values(
            |x: crate::ast::XrefView| crate::from_graph::c_xref(Seq::empty(), x),
        ) =~= s.xrefs);
    }
}

/// A created-by property value round-trips through the entity predicate
/// table: the predicate constants of the table are pairwise distinct, so
/// the value is read back as the same clause.
pub proof fn lemma_created_by_round_trip(name: Seq<char>)
    ensures
        crate::from_graph::spec_term_bpv(
            crate::into_graph::bare_bpv(crate::constants::created_by(), name),
        ) == Result::<TermClauseView, SpecError>::Ok(TermClauseView::CreatedBy { name }),
        crate::from_graph::c_term_clause(Seq::empty(), TermClauseView::CreatedBy { name })
            == (TermClauseView::CreatedBy { name }),
{
    reveal_strlit("http://www.geneontology.org/formats/oboInOwl#created_by");
    reveal_strlit("http://www.w3.org/2000/01/rdf-schema#comment");
    reveal_strlit("http://www.geneontology.org/formats/oboInOwl#hasAlternativeId");
    reveal_strlit("http://www.geneontology.org/formats/oboInOwl#hasOBONamespace");
    assert(crate::constants::created_by().len() == 55);
    assert(crate::constants::rdfs_comment().len() == 44);
    assert(crate::constants::has_alternative_id().len() == 61);
    assert(crate::constants::has_obo_namespace().len() == 60);
    assert(crate::constants::created_by() != crate::constants::rdfs_comment());
    assert(crate::constants::created_by() != crate::constants::has_alternative_id());
    assert(crate::constants::created_by() != crate::constants::has_obo_namespace());
}

/// Folding entity fragments into the header's graph never touches the
/// graph's identifier, label or metadata.
proof fn lemma_doc_graph_keeps_header(
    ctx: crate::context::ContextView,
    doc: crate::ast::OboDocView,
    i: int,
)
    requires
        0 <= i <= doc.entities.len(),
    ensures
        crate::into_graph::doc_graph_partial(ctx, doc, i).id == ctx.ontology_iri,
        crate::into_graph::doc_graph_partial(ctx, doc, i).meta == crate::into_graph::spec_header_meta(
            ctx,
            doc.header,
        ),
        crate::into_graph::doc_graph_partial(ctx, doc, i).label is None,
    decreases i,
{
    if i == 0 {
        assert(doc.entities.take(0) =~= Seq::<EntityFrameView>::empty());
    } else {
        lemma_doc_graph_keeps_header(ctx, doc, i - 1);
        assert(doc.entities.take(i).drop_last() =~= doc.entities.take(i - 1));
    }
}

/// The header scenario: a data-version clause and an ontology-name clause
/// give a single graph whose identifier is the OBO PURL of the name and
/// whose metadata carries the version string, whatever the entities.
pub proof fn lemma_header_scenario(doc: crate::ast::OboDocView, v: Seq<char>, name: Seq<char>)
    requires
        doc.header.clauses == seq![
            crate::ast::HeaderClauseView::DataVersion { v },
            crate::ast::HeaderClauseView::Ontology { v: name },
        ],
    ensures
        crate::into_graph::spec_into_graph(doc).graphs.len() == 1,
        crate::into_graph::spec_into_graph(doc).graphs[0].id == obo_base() + name + ".owl"@,
        crate::into_graph::spec_into_graph(doc).graphs[0].meta.version == Some(v),
{
    reveal_with_fuel(Seq::fold_left, 4);
    let hcls = doc.header.clauses;
    let ctx = crate::context::ctx_of_header(hcls);
    assert(hcls.drop_last() =~= seq![crate::ast::HeaderClauseView::DataVersion { v }]);
    assert(hcls.drop_last().drop_last() =~= Seq::<crate::ast::HeaderClauseView>::empty());
    assert(hcls.last() == hcls[1]);
    assert(hcls.drop_last().last() == hcls[0]);
    assert(ctx.ontology_iri == obo_base() + name + ".owl"@);
    assert(crate::into_graph::spec_header_meta(ctx, doc.header).version == Some(v)) by {
        let hn = hcls.len() as int;
        assert(hcls.take(hn) =~= hcls);
        assert(hcls.take(hn).drop_last() =~= hcls.drop_last());
        assert(hcls.take(hn).drop_last().drop_last()
            =~= Seq::<crate::ast::HeaderClauseView>::empty());
    }
    lemma_doc_graph_keeps_header(ctx, doc, doc.entities.len() as int);
}

/// `table_index` points at the first frame with the identifier, or `-1`
/// when no frame carries it.
pub proof fn lemma_table_index_props(t: Seq<EntityFrameView>, id: IdentView)
    ensures
        table_index(t, id) == -1 ==> forall|j: int|
            0 <= j < t.len() ==> (#[trigger] t[j].entity_id()) != id,
        table_index(t, id) != -1 ==> {
            let k = table_index(t, id);
            &&& 0 <= k < t.len()
            &&& t[k].entity_id() == id
            &&& forall|j: int| 0 <= j < k ==> (#[trigger] t[j].entity_id()) != id
        },
    decreases t.len(),
{
    if t.len() != 0 && t[0].entity_id() != id {
        lemma_table_index_props(t.skip(1), id);
        let r = table_index(t.skip(1), id);
        if r == -1 {
            assert forall|j: int| 0 <= j < t.len() implies (#[trigger] t[j].entity_id())
                != id by {
                if j > 0 {
                    assert(t.skip(1)[j - 1] == t[j]);
                }
            }
        } else {
            assert(t.skip(1)[r] == t[r + 1]);
            assert forall|j: int| 0 <= j < r + 1 implies (#[trigger] t[j].entity_id()) != id by {
                if j > 0 {
                    assert(t.skip(1)[j - 1] == t[j]);
                }
            }
        }
    }
}

/// Applying an edge never changes the number of frames, any frame's
/// identifier, or any frame's kind: it can only append a clause to one
/// frame.
pub proof fn lemma_apply_edge_keeps_ids(t: Seq<EntityFrameView>, e: EdgeView)
    ensures
        spec_apply_edge(t, e) matches Ok(t2) ==> t2.len() == t.len() && (forall|j: int|
            0 <= j < t.len() ==> (#[trigger] t2[j].entity_id()) == t[j].entity_id()) && (forall|
            j: int,
        |
            0 <= j < t.len() ==> crate::from_graph::frame_rank(#[trigger] t2[j])
                == crate::from_graph::frame_rank(t[j])),
{
    if spec_ident(e.sub) is Ok && spec_ident(e.pred) is Ok && spec_ident(e.obj) is Ok {
        let i = table_index(t, spec_ident(e.sub)->Ok_0);
        lemma_table_index_props(t, spec_ident(e.sub)->Ok_0);
        match spec_apply_edge(t, e) {
            Ok(t2) => {
                assert forall|j: int| 0 <= j < t.len() implies (#[trigger] t2[j].entity_id())
                    == t[j].entity_id() by {
                    if j != i {
                        assert(t2[j] == t[j]);
                    }
                }
            },
            Err(_) => (),
        }
    }
}

/// `table_index` depends only on the frames' identifiers.
pub proof fn lemma_table_index_same_ids(
    t1: Seq<EntityFrameView>,
    t2: Seq<EntityFrameView>,
    id: IdentView,
)
    requires
        t1.len() == t2.len(),
        forall|j: int| 0 <= j < t1.len() ==> (#[trigger] t1[j].entity_id()) == t2[j].entity_id(),
    ensures
        table_index(t1, id) == table_index(t2, id),
    decreases t1.len(),
{
    if t1.len() > 0 {
        assert(t1[0].entity_id() == t2[0].entity_id());
        assert forall|j: int|
            0 <= j < t1.skip(1).len() implies (#[trigger] t1.skip(1)[j].entity_id()) == t2.skip(
            1,
        )[j].entity_id() by {
            assert(t1.skip(1)[j] == t1[j + 1]);
            assert(t2.skip(1)[j] == t2[j + 1]);
        }
        lemma_table_index_same_ids(t1.skip(1), t2.skip(1), id);
    }
}

/// Removing a dangling edge from the run does not change the edge pass: an
/// edge whose subject has no frame is skipped wherever it stands, because
/// the pass never changes the frames' identifiers.
pub proof fn lemma_edges_pass_drop_dangling(
    t: Seq<EntityFrameView>,
    es1: Seq<EdgeView>,
    e: EdgeView,
    es2: Seq<EdgeView>,
)
    requires
        spec_ident(e.sub) is Ok,
        spec_ident(e.pred) is Ok,
        spec_ident(e.obj) is Ok,
        table_index(t, spec_ident(e.sub)->Ok_0) == -1,
    ensures
        crate::from_graph::spec_edges_pass(t, es1 + seq![e] + es2)
            == crate::from_graph::spec_edges_pass(t, es1 + es2),
    decreases es1.len(),
{
    if es1.len() == 0 {
        assert(es1 + seq![e] + es2 =~= seq![e] + es2);
        assert(es1 + es2 =~= es2);
        lemma_dangling_edge_skipped(t, e);
        assert((seq![e] + es2)[0] == e);
        assert((seq![e] + es2).skip(1) =~= es2);
    } else {
        let all = es1 + seq![e] + es2;
        let cut = es1 + es2;
        assert(all[0] == es1[0]);
        assert(cut[0] == es1[0]);
        assert(all.skip(1) =~= es1.skip(1) + seq![e] + es2);
        assert(cut.skip(1) =~= es1.skip(1) + es2);
        match spec_apply_edge(t, es1[0]) {
            Ok(t2) => {
                lemma_apply_edge_keeps_ids(t, es1[0]);
                lemma_table_index_same_ids(t2, t, spec_ident(e.sub)->Ok_0);
                lemma_edges_pass_drop_dangling(t2, es1.skip(1), e, es2);
            },
            Err(_) => (),
        }
    }
}

/// Boundary, through the whole conversion: an edge whose subject
/// identifier has no frame after the node pass contributes nothing — the
/// document a graph converts to is the same with or without that edge, so
/// it produces no clause and no error.
pub proof fn lemma_dangling_edge_through_conversion(g: crate::model::GraphView, k: int)
    requires
        0 <= k < g.edges.len(),
        crate::from_graph::spec_nodes_pass(Seq::empty(), g.nodes) matches Ok(t1) && {
            let e = g.edges[k];
            &&& spec_ident(e.sub) is Ok
            &&& spec_ident(e.pred) is Ok
            &&& spec_ident(e.obj) is Ok
            &&& table_index(t1, spec_ident(e.sub)->Ok_0) == -1
        },
    ensures
        crate::from_graph::spec_from_graph(g) == crate::from_graph::spec_from_graph(
            crate::model::GraphView { edges: g.edges.remove(k), ..g },
        ),
{
    let e = g.edges[k];
    let g2 = crate::model::GraphView { edges: g.edges.remove(k), ..g };
    let t1 = crate::from_graph::spec_nodes_pass(Seq::empty(), g.nodes)->Ok_0;
    assert(g.edges =~= g.edges.take(k) + seq![e] + g.edges.skip(k + 1));
    assert(g2.edges =~= g.edges.take(k) + g.edges.skip(k + 1));
    lemma_edges_pass_drop_dangling(t1, g.edges.take(k), e, g.edges.skip(k + 1));
    assert(crate::from_graph::spec_edges_pass(t1, g.edges)
        == crate::from_graph::spec_edges_pass(t1, g2.edges));
}

/// The clauses of a term frame; empty for the other kinds.
pub open spec fn term_clauses_of_frame(e: EntityFrameView) -> Seq<TermClauseView> {
    match e {
        EntityFrameView::Term { frame } => frame.clauses,
        _ => Seq::empty(),
    }
}

/// Simulation: two tables equal but for one term frame, whose clause list
/// in the first carries one inserted clause, stay in that relation through
/// the whole edge pass (later clauses are appended behind the insertion),
/// and the two runs succeed or fail alike, with the same error.
proof fn lemma_edges_pass_insert_sim(
    ta: Seq<EntityFrameView>,
    tb: Seq<EntityFrameView>,
    i: int,
    pos: int,
    x: TermClauseView,
    es: Seq<EdgeView>,
)
    requires
        ta.len() == tb.len(),
        0 <= i < ta.len(),
        forall|j: int| 0 <= j < ta.len() && j != i ==> ta[j] == tb[j],
        ta[i] is Term,
        tb[i] is Term,
        ta[i].entity_id() == tb[i].entity_id(),
        0 <= pos <= term_clauses_of_frame(tb[i]).len(),
        term_clauses_of_frame(ta[i]) == term_clauses_of_frame(tb[i]).insert(pos, x),
    ensures
        match (
            crate::from_graph::spec_edges_pass(ta, es),
            crate::from_graph::spec_edges_pass(tb, es),
        ) {
            (Ok(a), Ok(b)) => {
                &&& a.len() == b.len()
                &&& a.len() == ta.len()
                &&& (forall|j: int| 0 <= j < a.len() && j != i ==> a[j] == b[j])
                &&& a[i] is Term
                &&& b[i] is Term
                &&& a[i].entity_id() == b[i].entity_id()
                &&& pos <= term_clauses_of_frame(b[i]).len()
                &&& term_clauses_of_frame(a[i]) == term_clauses_of_frame(b[i]).insert(pos, x)
            },
            (Err(e1), Err(e2)) => e1 == e2,
            _ => false,
        },
    decreases es.len(),
{
    if es.len() > 0 {
        let e0 = es[0];
        if spec_ident(e0.sub) is Ok && spec_ident(e0.pred) is Ok && spec_ident(e0.obj) is Ok {
            let sub = spec_ident(e0.sub)->Ok_0;
            assert forall|j: int|
                0 <= j < ta.len() implies (#[trigger] ta[j].entity_id())
                    == tb[j].entity_id() by {}
            lemma_table_index_same_ids(ta, tb, sub);
            let idx = table_index(tb, sub);
            lemma_table_index_props(tb, sub);
            match (spec_apply_edge(ta, e0), spec_apply_edge(tb, e0)) {
                (Ok(ta2), Ok(tb2)) => {
                    if idx >= 0 && idx == i {
                        let acl = term_clauses_of_frame(ta[i]);
                        let bcl = term_clauses_of_frame(tb[i]);
                        if e0.pred == "is_a"@ || e0.pred == "subPropertyOf"@ || e0.pred
                            == "subClassOf"@ {
                            let c = TermClauseView::IsA { id: spec_ident(e0.obj)->Ok_0 };
                            assert(bcl.insert(pos, x).push(c) =~= bcl.push(c).insert(pos, x));
                            lemma_edges_pass_insert_sim(ta2, tb2, i, pos, x, es.skip(1));
                        } else {
                            let c = TermClauseView::Relationship {
                                rel: spec_ident(e0.pred)->Ok_0,
                                id: spec_ident(e0.obj)->Ok_0,
                            };
                            assert(bcl.insert(pos, x).push(c) =~= bcl.push(c).insert(pos, x));
                            lemma_edges_pass_insert_sim(ta2, tb2, i, pos, x, es.skip(1));
                        }
                    } else {
                        lemma_edges_pass_insert_sim(ta2, tb2, i, pos, x, es.skip(1));
                    }
                },
                (Err(_), Err(_)) => (),
                _ => {
                    assert(false);
                },
            }
        }
    }
}

/// A subclass edge on a term subject, through the whole edge pass: the run
/// with the edge and the run without it agree on every other frame and on
/// whether they fail (and with which error); when both succeed, the
/// subject's frame carries exactly one more clause, an IsA clause whose
/// target is the edge's parsed object, inserted where the edge stood.
pub proof fn lemma_is_a_edge_through_pass(
    t: Seq<EntityFrameView>,
    es: Seq<EdgeView>,
    k: int,
)
    requires
        0 <= k < es.len(),
        es[k].pred == "is_a"@,
        spec_ident(es[k].sub) is Ok,
        spec_ident(es[k].pred) is Ok,
        spec_ident(es[k].obj) is Ok,
        0 <= table_index(t, spec_ident(es[k].sub)->Ok_0) < t.len(),
        t[table_index(t, spec_ident(es[k].sub)->Ok_0)] is Term,
    ensures
        ({
            let i = table_index(t, spec_ident(es[k].sub)->Ok_0);
            let obj = spec_ident(es[k].obj)->Ok_0;
            match (
                crate::from_graph::spec_edges_pass(t, es),
                crate::from_graph::spec_edges_pass(t, es.remove(k)),
            ) {
                (Ok(a), Ok(b)) => {
                    &&& a.len() == b.len()
                    &&& (forall|j: int| 0 <= j < a.len() && j != i ==> a[j] == b[j])
                    &&& a[i] is Term
                    &&& b[i] is Term
                    &&& term_clauses_of_frame(a[i]).len() == term_clauses_of_frame(b[i]).len()
                        + 1
                    &&& (exists|pos: int|
                        0 <= pos <= term_clauses_of_frame(b[i]).len()
                            && term_clauses_of_frame(a[i]) == term_clauses_of_frame(
                            b[i],
                        ).insert(pos, TermClauseView::IsA { id: obj }))
                },
                (Err(e1), Err(e2)) => e1 == e2,
                _ => false,
            }
        }),
{
    assert(es =~= es.take(k) + seq![es[k]] + es.skip(k + 1));
    assert(es.remove(k) =~= es.take(k) + es.skip(k + 1));
    lemma_is_a_splice(t, es.take(k), es[k], es.skip(k + 1));
}

/// Helper for [`lemma_is_a_edge_through_pass`]: the splice induction over
/// the edges before the subclass edge.
proof fn lemma_is_a_splice(
    t: Seq<EntityFrameView>,
    es1: Seq<EdgeView>,
    e: EdgeView,
    es2: Seq<EdgeView>,
)
    requires
        e.pred == "is_a"@,
        spec_ident(e.sub) is Ok,
        spec_ident(e.pred) is Ok,
        spec_ident(e.obj) is Ok,
        0 <= table_index(t, spec_ident(e.sub)->Ok_0) < t.len(),
        t[table_index(t, spec_ident(e.sub)->Ok_0)] is Term,
    ensures
        ({
            let i = table_index(t, spec_ident(e.sub)->Ok_0);
            let obj = spec_ident(e.obj)->Ok_0;
            match (
                crate::from_graph::spec_edges_pass(t, es1 + seq![e] + es2),
                crate::from_graph::spec_edges_pass(t, es1 + es2),
            ) {
                (Ok(a), Ok(b)) => {
                    &&& a.len() == b.len()
                    &&& (forall|j: int| 0 <= j < a.len() && j != i ==> a[j] == b[j])
                    &&& a[i] is Term
                    &&& b[i] is Term
                    &&& term_clauses_of_frame(a[i]).len() == term_clauses_of_frame(b[i]).len()
                        + 1
                    &&& (exists|pos: int|
                        0 <= pos <= term_clauses_of_frame(b[i]).len()
                            && term_clauses_of_frame(a[i]) == term_clauses_of_frame(
                            b[i],
                        ).insert(pos, TermClauseView::IsA { id: obj }))
                },
                (Err(e1), Err(e2)) => e1 == e2,
                _ => false,
            }
        }),
    decreases es1.len(),
{
    let i = table_index(t, spec_ident(e.sub)->Ok_0);
    let obj = spec_ident(e.obj)->Ok_0;
    lemma_table_index_props(t, spec_ident(e.sub)->Ok_0);
    if es1.len() == 0 {
        assert(es1 + seq![e] + es2 =~= seq![e] + es2);
        assert(es1 + es2 =~= es2);
        assert((seq![e] + es2)[0] == e);
        assert((seq![e] + es2).skip(1) =~= es2);
        match t[i] {
            EntityFrameView::Term { frame } => {
                let ta2 = t.update(
                    i,
                    EntityFrameView::Term {
                        frame: crate::from_graph::term_frame_push(
                            frame,
                            TermClauseView::IsA { id: obj },
                        ),
                    },
                );
                assert(spec_apply_edge(t, e) == Result::<Seq<EntityFrameView>, SpecError>::Ok(
                    ta2,
                ));
                let pos = frame.clauses.len() as int;
                assert(term_clauses_of_frame(ta2[i]) =~= term_clauses_of_frame(t[i]).insert(
                    pos,
                    TermClauseView::IsA { id: obj },
                ));
                lemma_edges_pass_insert_sim(
                    ta2,
                    t,
                    i,
                    pos,
                    TermClauseView::IsA { id: obj },
                    es2,
                );
            },
            _ => {
                assert(false);
            },
        }
    } else {
        let all = es1 + seq![e] + es2;
        let cut = es1 + es2;
        assert(all[0] == es1[0]);
        assert(cut[0] == es1[0]);
        assert(all.skip(1) =~= es1.skip(1) + seq![e] + es2);
        assert(cut.skip(1) =~= es1.skip(1) + es2);
        match spec_apply_edge(t, es1[0]) {
            Ok(t2) => {
                lemma_apply_edge_keeps_ids(t, es1[0]);
                lemma_table_index_same_ids(t2, t, spec_ident(e.sub)->Ok_0);
                assert(crate::from_graph::frame_rank(t2[i]) == crate::from_graph::frame_rank(
                    t[i],
                ));
                assert(t2[i] is Term);
                lemma_is_a_splice(t2, es1.skip(1), e, es2);
            },
            Err(_) => (),
        }
    }
}

/// The frame a member of an equivalence set resolves to.
pub open spec fn member_index(t: Seq<EntityFrameView>, ids: Seq<Seq<char>>, m: int) -> int {
    table_index(t, spec_ident(ids[m])->Ok_0)
}

/// The EquivalentTo clauses one member receives: one per other member.
pub open spec fn others_clauses(ids: Seq<Seq<char>>, me: Seq<char>) -> Seq<TermClauseView> {
    match spec_eq_others(ids, me) {
        Ok(os) => os.map_values(|id: IdentView| TermClauseView::EquivalentTo { id }),
        Err(_) => Seq::empty(),
    }
}

/// A well-resolved equivalence set over term frames: the member texts are
/// pairwise distinct, they all parse, their identifiers are pairwise
/// distinct, and each resolves to a term frame.
pub open spec fn eq_set_on_terms(t: Seq<EntityFrameView>, ids: Seq<Seq<char>>) -> bool {
    &&& (forall|a: int, b: int|
        0 <= a < ids.len() && 0 <= b < ids.len() && a != b ==> ids[a] != ids[b])
    &&& (forall|a: int| 0 <= a < ids.len() ==> (#[trigger] spec_ident(ids[a])) is Ok)
    &&& (forall|a: int, b: int|
        0 <= a < ids.len() && 0 <= b < ids.len() && a != b ==> spec_ident(ids[a])->Ok_0
            != spec_ident(ids[b])->Ok_0)
    &&& (forall|m: int|
        0 <= m < ids.len() ==> 0 <= #[trigger] member_index(t, ids, m) < t.len())
    &&& (forall|m: int| 0 <= m < ids.len() ==> t[#[trigger] member_index(t, ids, m)] is Term)
}

/// Equivalent-node sets, through the whole set application: in a
/// well-resolved set of `k` distinct term members, every member's frame
/// gains exactly `k - 1` EquivalentTo clauses, one per other member,
/// appended in set order; every other frame is untouched.
pub proof fn lemma_eq_set_through_pass(t: Seq<EntityFrameView>, ids: Seq<Seq<char>>)
    requires
        eq_set_on_terms(t, ids),
    ensures
        crate::from_graph::spec_apply_eq_set(t, ids, ids) matches Ok(t2) && {
            &&& t2.len() == t.len()
            &&& (forall|m: int|
                0 <= m < ids.len() ==> t2[#[trigger] member_index(t, ids, m)] is Term)
            &&& (forall|m: int|
                0 <= m < ids.len() ==> term_clauses_of_frame(
                    t2[#[trigger] member_index(t, ids, m)],
                ) == term_clauses_of_frame(t[member_index(t, ids, m)]) + others_clauses(
                    ids,
                    ids[m],
                ))
            &&& (forall|m: int|
                0 <= m < ids.len() ==> term_clauses_of_frame(
                    t2[#[trigger] member_index(t, ids, m)],
                ).len() == term_clauses_of_frame(t[member_index(t, ids, m)]).len() + ids.len()
                    - 1)
            &&& (forall|j: int|
                0 <= j < t.len() && (forall|m: int|
                    0 <= m < ids.len() ==> member_index(t, ids, m) != j) ==> #[trigger] t2[j]
                    == t[j])
        },
{
    lemma_eq_members_suffix(t, t, ids, 0);
    match crate::from_graph::spec_apply_eq_set(t, ids, ids.skip(0)) {
        Ok(t2) => {
            assert(ids.skip(0) =~= ids);
            assert forall|m: int| 0 <= m < ids.len() implies term_clauses_of_frame(
                t2[#[trigger] member_index(t, ids, m)],
            ).len() == term_clauses_of_frame(t[member_index(t, ids, m)]).len() + ids.len()
                - 1 by {
                lemma_eq_others_count(ids, ids[m], m);
            }
        },
        Err(_) => {
            assert(ids.skip(0) =~= ids);
        },
    }
}

/// Helper for [`lemma_eq_set_through_pass`]: processing the members from
/// position `r` on, from a table that already carries the first `r`
/// members' clauses.
proof fn lemma_eq_members_suffix(
    tc: Seq<EntityFrameView>,
    t0: Seq<EntityFrameView>,
    ids: Seq<Seq<char>>,
    r: int,
)
    requires
        eq_set_on_terms(t0, ids),
        0 <= r <= ids.len(),
        tc.len() == t0.len(),
        forall|j: int| 0 <= j < t0.len() ==> (#[trigger] tc[j].entity_id()) == t0[j].entity_id(),
        forall|m: int|
            r <= m < ids.len() ==> tc[#[trigger] member_index(t0, ids, m)] == t0[member_index(
                t0,
                ids,
                m,
            )],
        forall|m: int|
            0 <= m < r ==> tc[#[trigger] member_index(t0, ids, m)] is Term
                && term_clauses_of_frame(tc[member_index(t0, ids, m)]) == term_clauses_of_frame(
                t0[member_index(t0, ids, m)],
            ) + others_clauses(ids, ids[m]),
        forall|j: int|
            0 <= j < t0.len() && (forall|m: int|
                0 <= m < ids.len() ==> member_index(t0, ids, m) != j) ==> #[trigger] tc[j]
                == t0[j],
    ensures
        crate::from_graph::spec_apply_eq_set(tc, ids, ids.skip(r)) matches Ok(t2) && {
            &&& t2.len() == t0.len()
            &&& (forall|m: int|
                0 <= m < ids.len() ==> t2[#[trigger] member_index(t0, ids, m)] is Term
                    && term_clauses_of_frame(t2[member_index(t0, ids, m)])
                    == term_clauses_of_frame(t0[member_index(t0, ids, m)]) + others_clauses(
                    ids,
                    ids[m],
                ))
            &&& (forall|j: int|
                0 <= j < t0.len() && (forall|m: int|
                    0 <= m < ids.len() ==> member_index(t0, ids, m) != j) ==> #[trigger] t2[j]
                    == t0[j])
        },
    decreases ids.len() - r,
{
    if r == ids.len() {
        assert(ids.skip(r) =~= Seq::<Seq<char>>::empty());
    } else {
        assert(ids.skip(r)[0] == ids[r]);
        assert(ids.skip(r).skip(1) =~= ids.skip(r + 1));
        let me = ids[r];
        let mid = spec_ident(me)->Ok_0;
        let i = member_index(t0, ids, r);
        lemma_table_index_same_ids(tc, t0, mid);
        lemma_table_index_props(t0, mid);
        assert(tc[i] == t0[i]);
        match tc[i] {
            EntityFrameView::Term { frame } => {
                lemma_eq_others_count(ids, me, r);
                let os = spec_eq_others(ids, me)->Ok_0;
                let tc2 = tc.update(
                    i,
                    EntityFrameView::Term {
                        frame: TermFrameView {
                            id: frame.id,
                            clauses: frame.clauses + os.map_values(
                                |id: IdentView| TermClauseView::EquivalentTo { id },
                            ),
                        },
                    },
                );
                assert(crate::from_graph::spec_apply_eq_member(tc, ids, me) == Result::<
                    Seq<EntityFrameView>,
                    SpecError,
                >::Ok(tc2));
                assert forall|j: int|
                    0 <= j < t0.len() implies (#[trigger] tc2[j].entity_id())
                        == t0[j].entity_id() by {
                    if j != i {
                        assert(tc2[j] == tc[j]);
                    }
                }
                assert forall|m: int|
                    r + 1 <= m < ids.len() implies tc2[#[trigger] member_index(t0, ids, m)]
                        == t0[member_index(t0, ids, m)] by {
                    assert(spec_ident(ids[m])->Ok_0 != mid);
                    lemma_table_index_props(t0, spec_ident(ids[m])->Ok_0);
                    assert(member_index(t0, ids, m) != i);
                }
                assert forall|m: int|
                    0 <= m < r + 1 implies tc2[#[trigger] member_index(t0, ids, m)] is Term
                        && term_clauses_of_frame(tc2[member_index(t0, ids, m)])
                        == term_clauses_of_frame(t0[member_index(t0, ids, m)]) + others_clauses(
                        ids,
                        ids[m],
                    ) by {
                    if m < r {
                        assert(spec_ident(ids[m])->Ok_0 != mid);
                        lemma_table_index_props(t0, spec_ident(ids[m])->Ok_0);
                        assert(member_index(t0, ids, m) != i);
                        assert(tc2[member_index(t0, ids, m)] == tc[member_index(t0, ids, m)]);
                    } else {
                        assert(term_clauses_of_frame(tc2[i]) =~= term_clauses_of_frame(t0[i])
                            + others_clauses(ids, ids[r]));
                    }
                }
                lemma_eq_members_suffix(tc2, t0, ids, r + 1);
            },
            _ => {
                assert(false);
            },
        }
    }
}
} // verus!
