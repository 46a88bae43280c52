//! The identifier resolver: a short-lived value built once per conversion,
//! owning the idspace table (compact prefix to base URI), the ontology's
//! own absolute URI, and the shorthand table (bare name to identifier).
//! Expansion turns compact identifiers into absolute URIs; compaction is
//! its approximate inverse, rewriting a URI under the longest matching
//! declared base, or under the OBO PURL factorization.

use vstd::prelude::*;
use vstd::string::*;

use crate::ast::{HeaderClause, HeaderClauseView, HeaderFrame};
use crate::ident::{Ident, IdentView};
use crate::strutil;

verus! {

/// The fixed OBO PURL base used by the fallback expansion and by the
/// compaction factorization.
pub open spec fn obo_base() -> Seq<char> {
    "http://purl.obolibrary.org/obo/"@
}

/// Executable form of [`obo_base`].
pub fn obo_base_str() -> (r: &'static str)
    ensures
        r@ == obo_base(),
{
    "http://purl.obolibrary.org/obo/"
}

/// The XML-schema datatype namespace, pre-seeded as the `xsd` idspace.
pub open spec fn xsd_base() -> Seq<char> {
    "http://www.w3.org/2001/XMLSchema#"@
}

/// Executable form of [`xsd_base`].
pub fn xsd_base_str() -> (r: &'static str)
    ensures
        r@ == xsd_base(),
{
    "http://www.w3.org/2001/XMLSchema#"
}

/// The placeholder ontology URI used when the header has no ontology-name
/// clause.
pub open spec fn default_ontology_iri() -> Seq<char> {
    "http://purl.obolibrary.org/obo/TEMP"@
}

/// Executable form of [`default_ontology_iri`].
pub fn default_ontology_iri_str() -> (r: &'static str)
    ensures
        r@ == default_ontology_iri(),
{
    "http://purl.obolibrary.org/obo/TEMP"
}

/// First value bound to `k` in an association sequence, or `None`.
pub open spec fn assoc_find<V>(m: Seq<(Seq<char>, V)>, k: Seq<char>) -> Option<V>
    decreases m.len(),
{
    if m.len() == 0 {
        None
    } else if m[0].0 == k {
        Some(m[0].1)
    } else {
        assoc_find(m.skip(1), k)
    }
}

/// `m` with `k` bound to `v`: the first existing binding of `k` is
/// replaced in place, otherwise the pair is appended.
pub open spec fn assoc_insert<V>(m: Seq<(Seq<char>, V)>, k: Seq<char>, v: V) -> Seq<
    (Seq<char>, V),
>
    decreases m.len(),
{
    if m.len() == 0 {
        seq![(k, v)]
    } else if m[0].0 == k {
        seq![(k, v)] + m.skip(1)
    } else {
        seq![m[0]] + assoc_insert(m.skip(1), k, v)
    }
}

/// Spec-level shape of a [`Context`].
#[verifier::ext_equal]
pub struct ContextView {
    pub idspaces: Seq<(Seq<char>, Seq<char>)>,
    pub ontology_iri: Seq<char>,
    pub shorthands: Seq<(Seq<char>, IdentView)>,
}

impl ContextView {
    /// Well-formedness: shorthand targets are themselves prefixed or URL
    /// identifiers, never bare names, so that expansion needs exactly one
    /// step through the table.
    pub open spec fn wf(self) -> bool {
        forall|i: int|
            0 <= i < self.shorthands.len() ==> !(#[trigger] self.shorthands[i].1 is Unprefixed)
    }
}

/// Expansion of an identifier that is not a bare name (or of a bare name
/// ignoring the shorthand table).
pub open spec fn spec_expand_base(ctx: ContextView, id: IdentView) -> Seq<char> {
    match id {
        IdentView::Url { uri } => uri,
        IdentView::Prefixed { prefix, local } => match assoc_find(ctx.idspaces, prefix) {
            Some(base) => base + local,
            None => obo_base() + prefix + seq!['_'] + local,
        },
        IdentView::Unprefixed { name } => ctx.ontology_iri + seq!['#'] + name,
    }
}

/// Expansion of an identifier into its absolute URI: URLs are returned
/// unchanged; a prefixed identifier is resolved through the idspace table,
/// falling back to the OBO PURL convention `obo/{prefix}_{local}`; a bare
/// name is resolved through the shorthand table, falling back to
/// `{ontology_iri}#{name}`. Expansion is total: there is no error path.
pub open spec fn spec_expand(ctx: ContextView, id: IdentView) -> Seq<char> {
    match id {
        IdentView::Unprefixed { name } => match assoc_find(ctx.shorthands, name) {
            Some(target) => spec_expand_base(ctx, target),
            None => ctx.ontology_iri + seq!['#'] + name,
        },
        _ => spec_expand_base(ctx, id),
    }
}

/// The identifier resolver for one conversion call.
pub struct Context {
    idspaces: Vec<(String, String)>,
    ontology_iri: String,
    shorthands: Vec<(String, Ident)>,
}

impl View for Context {
    type V = ContextView;

    closed spec fn view(&self) -> ContextView {
        ContextView {
            idspaces: self.idspaces@.map_values(|p: (String, String)| (p.0@, p.1@)),
            ontology_iri: self.ontology_iri@,
            shorthands: self.shorthands@.map_values(|p: (String, Ident)| (p.0@, p.1@)),
        }
    }
}

/// One header clause's effect on the context under construction: an
/// idspace declaration binds its prefix, an ontology-name clause sets the
/// ontology URI to `obo/{name}.owl`, everything else is ignored.
pub open spec fn ctx_step(ctx: ContextView, cl: HeaderClauseView) -> ContextView {
    match cl {
        HeaderClauseView::Idspace { prefix, base, def: _ } => ContextView {
            idspaces: assoc_insert(ctx.idspaces, prefix, base),
            ..ctx
        },
        HeaderClauseView::Ontology { v } => ContextView {
            ontology_iri: obo_base() + v + ".owl"@,
            ..ctx
        },
        _ => ctx,
    }
}

/// The idspace table pre-seeded with the built-in namespaces.
pub open spec fn seed_idspaces() -> Seq<(Seq<char>, Seq<char>)> {
    seq![
        ("BFO"@, obo_base() + "BFO_"@),
        ("RO"@, obo_base() + "RO"@),
        ("xsd"@, xsd_base()),
    ]
}

/// The context a header determines: the seeded idspace table augmented by
/// the header's idspace declarations, the ontology URI from its
/// ontology-name clause (defaulting to a fixed placeholder), and an empty
/// shorthand table.
pub open spec fn ctx_of_header(h: Seq<HeaderClauseView>) -> ContextView {
    h.fold_left(
        ContextView {
            idspaces: seed_idspaces(),
            ontology_iri: default_ontology_iri(),
            shorthands: Seq::empty(),
        },
        |c: ContextView, cl: HeaderClauseView| ctx_step(c, cl),
    )
}

impl Context {
    /// The ontology's own absolute URI.
    pub fn ontology_iri(&self) -> (r: &String)
        ensures
            r@ == self@.ontology_iri,
    {
        &self.ontology_iri
    }

    /// Looks a prefix up in the idspace table.
    fn find_idspace(&self, prefix: &str) -> (r: Option<String>)
        ensures
            match r {
                Some(base) => assoc_find(self@.idspaces, prefix@) == Some(base@),
                None => assoc_find(self@.idspaces, prefix@) is None,
            },
    {
        proof {
            assert(self@.idspaces.skip(0) =~= self@.idspaces);
        }
        let n = self.idspaces.len();
        for i in 0..n
            invariant
                n == self.idspaces.len(),
                assoc_find(self@.idspaces, prefix@) == assoc_find(
                    self@.idspaces.skip(i as int),
                    prefix@,
                ),
                forall|j: int| 0 <= j < i ==> self@.idspaces[j].0 != prefix@,
        {
            let entry = &self.idspaces[i];
            proof {
                assert(self@.idspaces.skip(i as int)[0] == self@.idspaces[i as int]);
            }
            if strutil::str_eq(entry.0.as_str(), prefix) {
                return Some(entry.1.clone());
            }
            proof {
                assert(self@.idspaces.skip(i as int).skip(1) =~= self@.idspaces.skip(i + 1));
            }
        }
        proof {
            assert(self@.idspaces.skip(n as int) =~= Seq::<(Seq<char>, Seq<char>)>::empty());
        }
        None
    }

    /// Looks a bare name up in the shorthand table.
    fn find_shorthand(&self, name: &str) -> (r: Option<Ident>)
        ensures
            match r {
                Some(id) => assoc_find(self@.shorthands, name@) == Some(id@),
                None => assoc_find(self@.shorthands, name@) is None,
            },
    {
        proof {
            assert(self@.shorthands.skip(0) =~= self@.shorthands);
        }
        let n = self.shorthands.len();
        for i in 0..n
            invariant
                n == self.shorthands.len(),
                assoc_find(self@.shorthands, name@) == assoc_find(
                    self@.shorthands.skip(i as int),
                    name@,
                ),
                forall|j: int| 0 <= j < i ==> self@.shorthands[j].0 != name@,
        {
            let entry = &self.shorthands[i];
            proof {
                assert(self@.shorthands.skip(i as int)[0] == self@.shorthands[i as int]);
            }
            if strutil::str_eq(entry.0.as_str(), name) {
                return Some(entry.1.clone());
            }
            proof {
                assert(self@.shorthands.skip(i as int).skip(1) =~= self@.shorthands.skip(i + 1));
            }
        }
        proof {
            assert(self@.shorthands.skip(n as int) =~= Seq::<(Seq<char>, IdentView)>::empty());
        }
        None
    }

    /// Binds a prefix to a base URI, replacing an earlier binding of the
    /// same prefix.
    pub fn add_idspace(&mut self, prefix: String, base: String)
        ensures
            final(self)@.idspaces == assoc_insert(old(self)@.idspaces, prefix@, base@),
            final(self)@.ontology_iri == old(self)@.ontology_iri,
            final(self)@.shorthands == old(self)@.shorthands,
    {
        let n = self.idspaces.len();
        let ghost orig = self@.idspaces;
        proof {
            assert(orig.skip(0) =~= orig);
            assert(orig.take(0) =~= Seq::<(Seq<char>, Seq<char>)>::empty());
            assert(orig.take(0) + assoc_insert(orig.skip(0), prefix@, base@) =~= assoc_insert(
                orig,
                prefix@,
                base@,
            ));
        }
        for i in 0..n
            invariant
                n == self.idspaces.len(),
                orig == old(self)@.idspaces,
                self@.idspaces == orig,
                self@.ontology_iri == old(self)@.ontology_iri,
                self@.shorthands == old(self)@.shorthands,
                forall|j: int| 0 <= j < i ==> orig[j].0 != prefix@,
                assoc_insert(orig, prefix@, base@) == orig.take(i as int) + assoc_insert(
                    orig.skip(i as int),
                    prefix@,
                    base@,
                ),
        {
            proof {
                assert(orig.skip(i as int)[0] == orig[i as int]);
            }
            if strutil::str_eq(self.idspaces[i].0.as_str(), prefix.as_str()) {
                self.idspaces.set(i, (prefix, base));
                proof {
                    assert(orig.skip(i as int)[0].0 == prefix@);
                    assert(assoc_insert(orig.skip(i as int), prefix@, base@) == seq![
                        (prefix@, base@),
                    ] + orig.skip(i as int).skip(1));
                    assert(orig.skip(i as int).skip(1) =~= orig.skip(i + 1));
                    assert(assoc_insert(orig.skip(i as int), prefix@, base@) =~= seq![
                        (prefix@, base@),
                    ] + orig.skip(i + 1));
                    assert(self@.idspaces =~= orig.take(i as int) + (seq![(prefix@, base@)]
                        + orig.skip(i + 1)));
                    assert(self@.idspaces == assoc_insert(orig, prefix@, base@));
                }
                return ;
            }
            proof {
                assert(orig.skip(i as int).skip(1) =~= orig.skip(i + 1));
                assert(orig.take(i + 1) =~= orig.take(i as int) + seq![orig[i as int]]);
                assert((orig.take(i as int) + (seq![orig[i as int]] + assoc_insert(
                    orig.skip(i + 1),
                    prefix@,
                    base@,
                ))) =~= orig.take(i + 1) + assoc_insert(orig.skip(i + 1), prefix@, base@));
            }
        }
        proof {
            assert(orig.skip(n as int) =~= Seq::<(Seq<char>, Seq<char>)>::empty());
            assert(assoc_insert(orig.skip(n as int), prefix@, base@) =~= seq![(prefix@, base@)]);
        }
        self.idspaces.push((prefix, base));
        proof {
            assert(self@.idspaces =~= orig.take(n as int) + seq![(prefix@, base@)]);
            assert(orig.take(n as int) =~= orig);
        }
    }

    /// Builds the context a header determines: built-in idspaces for two
    /// upper-ontology prefixes and the XML-schema namespace, then the
    /// header's own idspace declarations, and the ontology URI from the
    /// ontology-name clause.
    pub fn from_header(header: &HeaderFrame) -> (r: Context)
        ensures
            r@ == ctx_of_header(header@.clauses),
            r@.wf(),
    {
        let mut ctx = Context {
            idspaces: Vec::new(),
            ontology_iri: default_ontology_iri_str().to_owned(),
            shorthands: Vec::new(),
        };
        let obo = obo_base_str();
        let mut bfo = obo.to_owned();
        bfo.append("BFO_");
        ctx.idspaces.push(("BFO".to_owned(), bfo));
        let mut ro = obo.to_owned();
        ro.append("RO");
        ctx.idspaces.push(("RO".to_owned(), ro));
        ctx.idspaces.push(("xsd".to_owned(), xsd_base_str().to_owned()));
        proof {
            reveal_strlit("BFO");
            reveal_strlit("RO");
            reveal_strlit("xsd");
            reveal_strlit("BFO_");
            assert(ctx@.idspaces =~= seed_idspaces());
            assert(ctx@.shorthands =~= Seq::<(Seq<char>, IdentView)>::empty());
        }
        let n = header.clauses.len();
        let ghost cls = header@.clauses;
        for i in 0..n
            invariant
                n == header.clauses.len(),
                cls == header@.clauses,
                ctx@ == ctx_of_header(cls.take(i as int)),
                ctx@.shorthands == Seq::<(Seq<char>, IdentView)>::empty(),
        {
            proof {
                assert(cls.take(i + 1).drop_last() =~= cls.take(i as int));
                assert(cls.take(i + 1).last() == cls[i as int]);
                assert(cls[i as int] == header.clauses[i as int]@);
            }
            match &header.clauses[i] {
                HeaderClause::Idspace(prefix, base, _) => {
                    ctx.add_idspace(prefix.clone(), base.clone());
                },
                HeaderClause::Ontology(name) => {
                    let mut iri = obo_base_str().to_owned();
                    iri.append(name.as_str());
                    iri.append(".owl");
                    ctx.ontology_iri = iri;
                },
                _ => (),
            }
            assert(ctx@ =~= ctx_step(ctx_of_header(cls.take(i as int)), cls[i as int]));
        }
        proof {
            assert(cls.take(n as int) =~= cls);
        }
        ctx
    }

    /// Expands an identifier into the semantically-equivalent absolute
    /// URI. Total: every well-formed identifier expands to some URI.
    pub fn expand(&self, id: &Ident) -> (r: String)
        requires
            self@.wf(),
        ensures
            r@ == spec_expand(self@, id@),
    {
        match id {
            Ident::Url(u) => u.clone(),
            Ident::Prefixed(p, l) => self.expand_prefixed(p, l),
            Ident::Unprefixed(n) => {
                match self.find_shorthand(n.as_str()) {
                    Some(target) => match &target {
                        Ident::Url(u) => u.clone(),
                        Ident::Prefixed(p, l) => self.expand_prefixed(p, l),
                        Ident::Unprefixed(_) => {
                            // unreachable: well-formedness excludes bare
                            // shorthand targets
                            proof {
                                lemma_assoc_find_in_range(self@.shorthands, n@);
                                let i = choose|i: int|
                                    0 <= i < self@.shorthands.len()
                                        && #[trigger] self@.shorthands[i] == (n@, target@);
                                assert(self@.shorthands[i].1 == target@);
                                assert(false);
                            }
                            self.fallback_unprefixed(n)
                        },
                    },
                    None => self.fallback_unprefixed(n),
                }
            },
        }
    }

    /// Expands a prefixed identifier through the idspace table, falling
    /// back to the OBO PURL convention.
    fn expand_prefixed(&self, p: &String, l: &String) -> (r: String)
        ensures
            r@ == spec_expand_base(self@, IdentView::Prefixed { prefix: p@, local: l@ }),
    {
        match self.find_idspace(p.as_str()) {
            Some(base) => {
                let mut out = base;
                out.append(l.as_str());
                out
            },
            None => {
                let mut out = obo_base_str().to_owned();
                out.append(p.as_str());
                out.append("_");
                out.append(l.as_str());
                proof {
                    reveal_strlit("_");
                    assert(out@ =~= obo_base() + p@ + seq!['_'] + l@);
                }
                out
            },
        }
    }

    /// The fallback expansion of a bare name: `{ontology_iri}#{name}`.
    fn fallback_unprefixed(&self, n: &String) -> (r: String)
        ensures
            r@ == self@.ontology_iri + seq!['#'] + n@,
    {
        let mut out = self.ontology_iri.clone();
        out.append("#");
        out.append(n.as_str());
        proof {
            reveal_strlit("#");
            assert(out@ =~= self@.ontology_iri + seq!['#'] + n@);
        }
        out
    }
}

/// A found binding lies in the table.
pub proof fn lemma_assoc_find_in_range<V>(m: Seq<(Seq<char>, V)>, k: Seq<char>)
    ensures
        match assoc_find(m, k) {
            Some(v) => exists|i: int| 0 <= i < m.len() && #[trigger] m[i] == (k, v),
            None => true,
        },
    decreases m.len(),
{
    if m.len() > 0 {
        if m[0].0 == k {
            assert(m[0] == (k, m[0].1));
        } else {
            lemma_assoc_find_in_range(m.skip(1), k);
            match assoc_find(m.skip(1), k) {
                Some(v) => {
                    let i = choose|i: int| 0 <= i < m.skip(1).len() && #[trigger] m.skip(1)[i] == (
                    k,
                    v,
                    );
                    assert(m[i + 1] == (k, v));
                },
                None => (),
            }
        }
    }
}


// ---------------------------------------------------------------------
// Compaction
// ---------------------------------------------------------------------

/// View of an idspace table kept as prefix/base string pairs.
pub open spec fn pairs_view(v: &Vec<(String, String)>) -> Seq<(Seq<char>, Seq<char>)> {
    v@.map_values(|p: (String, String)| (p.0@, p.1@))
}

/// One step of the best-base scan: a declared base that prefixes `u` and
/// is strictly longer than the best seen so far replaces it, so the first
/// longest match wins.
pub open spec fn compact_step(
    acc: Option<(Seq<char>, Seq<char>)>,
    e: (Seq<char>, Seq<char>),
    u: Seq<char>,
) -> Option<(Seq<char>, Seq<char>)> {
    if e.1.is_prefix_of(u) && (match acc {
        Some(b) => b.1.len() < e.1.len(),
        None => true,
    }) {
        Some(e)
    } else {
        acc
    }
}

/// A best base, when there is one, prefixes `u`.
pub proof fn lemma_best_base_prefix(m: Seq<(Seq<char>, Seq<char>)>, u: Seq<char>)
    ensures
        match best_base(m, u) {
            Some(b) => b.1.is_prefix_of(u),
            None => true,
        },
    decreases m.len(),
{
    if m.len() > 0 {
        lemma_best_base_prefix(m.drop_last(), u);
    }
}

/// The first longest declared base that prefixes `u`, with its prefix.
pub open spec fn best_base(m: Seq<(Seq<char>, Seq<char>)>, u: Seq<char>) -> Option<
    (Seq<char>, Seq<char>),
> {
    m.fold_left(
        None::<(Seq<char>, Seq<char>)>,
        |acc: Option<(Seq<char>, Seq<char>)>, e: (Seq<char>, Seq<char>)| compact_step(acc, e, u),
    )
}

/// Compaction of one absolute URI: rewrite under the first longest
/// declared base as `prefix:rest`; otherwise, a URI under the OBO PURL
/// base whose remainder has an underscore, and whose part before the
/// first underscore is not a declared prefix, factorizes as
/// `{part}:{rest}`; any other URI is kept absolute.
pub open spec fn spec_compact_uri(m: Seq<(Seq<char>, Seq<char>)>, u: Seq<char>) -> IdentView {
    match best_base(m, u) {
        Some(b) => IdentView::Prefixed { prefix: b.0, local: u.skip(b.1.len() as int) },
        None => {
            if obo_base().is_prefix_of(u) {
                let raw = u.skip(obo_base().len() as int);
                let k = strutil::first_index_of(raw, '_');
                if k >= 0 && assoc_find(m, raw.take(k)) is None {
                    IdentView::Prefixed { prefix: raw.take(k), local: raw.skip(k + 1) }
                } else {
                    IdentView::Url { uri: u }
                }
            } else {
                IdentView::Url { uri: u }
            }
        },
    }
}

/// Compaction of an identifier: only URL identifiers are rewritten.
pub open spec fn spec_compact(m: Seq<(Seq<char>, Seq<char>)>, id: IdentView) -> IdentView {
    match id {
        IdentView::Url { uri } => spec_compact_uri(m, uri),
        _ => id,
    }
}

/// Looks a prefix up in a raw idspace table.
fn table_find(idspaces: &Vec<(String, String)>, prefix: &str) -> (r: Option<usize>)
    ensures
        match r {
            Some(i) => i < idspaces@.len() && assoc_find(pairs_view(idspaces), prefix@) == Some(
                pairs_view(idspaces)[i as int].1,
            ),
            None => assoc_find(pairs_view(idspaces), prefix@) is None,
        },
{
    let ghost m = pairs_view(idspaces);
    proof {
        assert(m.skip(0) =~= m);
    }
    let n = idspaces.len();
    for i in 0..n
        invariant
            n == idspaces.len(),
            m == pairs_view(idspaces),
            assoc_find(m, prefix@) == assoc_find(m.skip(i as int), prefix@),
            forall|j: int| 0 <= j < i ==> m[j].0 != prefix@,
    {
        proof {
            assert(m.skip(i as int)[0] == m[i as int]);
        }
        if strutil::str_eq(idspaces[i].0.as_str(), prefix) {
            return Some(i);
        }
        proof {
            assert(m.skip(i as int).skip(1) =~= m.skip(i + 1));
        }
    }
    proof {
        assert(m.skip(n as int) =~= Seq::<(Seq<char>, Seq<char>)>::empty());
    }
    None
}

/// Compacts one absolute URI against an idspace table.
pub fn compact_uri(idspaces: &Vec<(String, String)>, u: &String) -> (r: Ident)
    ensures
        r@ == spec_compact_uri(pairs_view(idspaces), u@),
{
    let ghost m = pairs_view(idspaces);
    let n = idspaces.len();
    let mut best: Option<usize> = None;
    proof {
        assert(m.take(0) =~= Seq::<(Seq<char>, Seq<char>)>::empty());
    }
    for i in 0..n
        invariant
            n == idspaces.len(),
            m == pairs_view(idspaces),
            match best {
                Some(b) => b < i && best_base(m.take(i as int), u@) == Some(m[b as int]),
                None => best_base(m.take(i as int), u@) is None,
            },
    {
        proof {
            assert(m.take(i + 1).drop_last() =~= m.take(i as int));
            assert(m.take(i + 1).last() == m[i as int]);
        }
        let better = if strutil::str_starts_with(u.as_str(), idspaces[i].1.as_str()) {
            match best {
                Some(b) => idspaces[b].1.unicode_len() < idspaces[i].1.unicode_len(),
                None => true,
            }
        } else {
            false
        };
        if better {
            best = Some(i);
        }
    }
    proof {
        assert(m.take(n as int) =~= m);
    }
    match best {
        Some(b) => {
            proof {
                lemma_best_base_prefix(m, u@);
            }
            let base_len = idspaces[b].1.unicode_len();
            let u_len = u.as_str().unicode_len();
            let local = strutil::substring(u.as_str(), base_len, u_len);
            proof {
                assert(u@.subrange(m[b as int].1.len() as int, u@.len() as int) =~= u@.skip(
                    m[b as int].1.len() as int,
                ));
            }
            Ident::Prefixed(idspaces[b].0.clone(), local)
        },
        None => {
            match strutil::strip_prefix(u.as_str(), obo_base_str()) {
                Some(raw) => {
                    match strutil::find_char(raw.as_str(), '_') {
                        Some(k) => {
                            proof {
                                strutil::lemma_first_index_of(raw@, '_');
                            }
                            let prefix = strutil::substring(raw.as_str(), 0, k);
                            proof {
                                assert(raw@.subrange(0, k as int) =~= raw@.take(k as int));
                            }
                            match table_find(idspaces, prefix.as_str()) {
                                Some(_) => Ident::Url(u.clone()),
                                None => {
                                    let raw_len = raw.as_str().unicode_len();
                                    let local = strutil::substring(raw.as_str(), k + 1, raw_len);
                                    proof {
                                        assert(raw@.subrange(k + 1, raw@.len() as int) =~= raw@.skip(
                                            k + 1,
                                        ));
                                    }
                                    Ident::Prefixed(prefix, local)
                                },
                            }
                        },
                        None => Ident::Url(u.clone()),
                    }
                },
                None => Ident::Url(u.clone()),
            }
        },
    }
}

/// Compacts one identifier against an idspace table: URL identifiers are
/// rewritten where a base or the OBO factorization applies, everything
/// else is returned unchanged.
pub fn compact_ident(idspaces: &Vec<(String, String)>, id: Ident) -> (r: Ident)
    ensures
        r@ == spec_compact(pairs_view(idspaces), id@),
{
    match &id {
        Ident::Url(u) => compact_uri(idspaces, u),
        _ => id,
    }
}

/// Expansion is a fixed point on absolute identifiers: an already-absolute
/// identifier is returned unchanged, so expanding the result of any
/// expansion, taken as an absolute identifier, gives that result back.
pub proof fn lemma_expand_idempotent(ctx: ContextView, id: IdentView)
    ensures
        spec_expand(ctx, IdentView::Url { uri: spec_expand(ctx, id) }) == spec_expand(ctx, id),
{
}

} // verus!