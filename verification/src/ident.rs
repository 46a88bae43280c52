//! Identifiers of the flat OBO syntax: absolute URLs, prefixed (compact)
//! identifiers, and bare unprefixed names, together with their canonical
//! rendering (with OBO escape sequences).

use vstd::prelude::*;
use vstd::string::*;

use crate::strutil::push_char;

verus! {

/// Spec-level shape of an identifier.
pub enum IdentView {
    Url { uri: Seq<char> },
    Prefixed { prefix: Seq<char>, local: Seq<char> },
    Unprefixed { name: Seq<char> },
}

/// An identifier, either a URL, prefixed, or unprefixed.
pub enum Ident {
    /// An absolute URL used directly as an identifier.
    Url(String),
    /// A compact `prefix:local` identifier.
    Prefixed(String, String),
    /// A bare name without a prefix.
    Unprefixed(String),
}

impl View for Ident {
    type V = IdentView;

    open spec fn view(&self) -> IdentView {
        match self {
            Ident::Url(u) => IdentView::Url { uri: u@ },
            Ident::Prefixed(p, l) => IdentView::Prefixed { prefix: p@, local: l@ },
            Ident::Unprefixed(n) => IdentView::Unprefixed { name: n@ },
        }
    }
}

impl Clone for Ident {
    fn clone(&self) -> (r: Self)
        ensures
            r@ == self@,
    {
        match self {
            Ident::Url(u) => Ident::Url(u.clone()),
            Ident::Prefixed(p, l) => Ident::Prefixed(p.clone(), l.clone()),
            Ident::Unprefixed(n) => Ident::Unprefixed(n.clone()),
        }
    }
}

impl Ident {
    /// Structural equality of two identifiers.
    pub fn same_as(&self, other: &Ident) -> (r: bool)
        ensures
            r == (self@ == other@),
    {
        match (self, other) {
            (Ident::Url(a), Ident::Url(b)) => crate::strutil::str_eq(a.as_str(), b.as_str()),
            (Ident::Prefixed(ap, al), Ident::Prefixed(bp, bl)) => {
                let pe = crate::strutil::str_eq(ap.as_str(), bp.as_str());
                let le = crate::strutil::str_eq(al.as_str(), bl.as_str());
                pe && le
            },
            (Ident::Unprefixed(a), Ident::Unprefixed(b)) => crate::strutil::str_eq(
                a.as_str(),
                b.as_str(),
            ),
            _ => false,
        }
    }
}

/// Characters that the rendering escapes with a backslash.
pub open spec fn needs_escape(c: char) -> bool {
    c == '\r' || c == '\n' || c == '\u{000c}' || c == ' ' || c == '\t' || c == ':' || c == '"'
        || c == '\\'
}

/// The escaped form of one character.
pub open spec fn escape_char(c: char) -> Seq<char> {
    if c == '\r' {
        seq!['\\', 'r']
    } else if c == '\n' {
        seq!['\\', 'n']
    } else if c == '\u{000c}' {
        seq!['\\', 'f']
    } else if c == '\t' {
        seq!['\\', 't']
    } else if needs_escape(c) {
        seq!['\\', c]
    } else {
        seq![c]
    }
}

/// The escaped form of a character sequence.
pub open spec fn escape_seq(s: Seq<char>) -> Seq<char>
    decreases s.len(),
{
    if s.len() == 0 {
        Seq::empty()
    } else {
        escape_char(s[0]) + escape_seq(s.skip(1))
    }
}

/// A sequence with no character that the rendering would escape stays
/// unchanged by escaping.
pub proof fn lemma_escape_seq_plain(s: Seq<char>)
    requires
        forall|i: int| 0 <= i < s.len() ==> !needs_escape(s[i]),
    ensures
        escape_seq(s) == s,
    decreases s.len(),
{
    if s.len() == 0 {
        assert(escape_seq(s) =~= s);
    } else {
        lemma_escape_seq_plain(s.skip(1));
        assert(escape_char(s[0]) =~= seq![s[0]]);
        assert(escape_seq(s) =~= seq![s[0]] + s.skip(1));
        assert(seq![s[0]] + s.skip(1) =~= s);
    }
}

proof fn lemma_escape_seq_snoc(s: Seq<char>, i: int)
    requires
        0 <= i < s.len(),
    ensures
        escape_seq(s.take(i + 1)) == escape_seq(s.take(i)) + escape_char(s[i]),
    decreases i,
{
    let a = s.take(i + 1);
    if i == 0 {
        assert(a.skip(1) =~= Seq::<char>::empty());
        assert(escape_seq(a) =~= escape_char(s[0]) + escape_seq(a.skip(1)));
        assert(escape_seq(a.skip(1)) =~= Seq::<char>::empty());
        assert(s.take(0) =~= Seq::<char>::empty());
        assert(escape_seq(s.take(0)) =~= Seq::<char>::empty());
        assert(escape_seq(s.take(1)) =~= escape_seq(s.take(0)) + escape_char(s[0]));
    } else {
        let t = s.skip(1);
        lemma_escape_seq_snoc(t, i - 1);
        assert(a.skip(1) =~= t.take(i));
        assert(s.take(i).skip(1) =~= t.take(i - 1));
        assert(t[i - 1] == s[i]);
        assert(escape_seq(s.take(i + 1)) == escape_char(s[0]) + escape_seq(t.take(i)));
        assert(escape_seq(s.take(i)) == escape_char(s[0]) + escape_seq(t.take(i - 1)));
        assert(escape_char(s[0]) + (escape_seq(t.take(i - 1)) + escape_char(t[i - 1])) =~= (
        escape_char(s[0]) + escape_seq(t.take(i - 1))) + escape_char(t[i - 1]));
    }
}

/// Escapes the special characters of `s` as the OBO syntax requires.
pub fn escape_str(s: &str) -> (r: String)
    ensures
        r@ == escape_seq(s@),
{
    let mut out = String::new();
    let n = s.unicode_len();
    for i in 0..n
        invariant
            n == s@.len(),
            out@ == escape_seq(s@.take(i as int)),
    {
        let c = s.get_char(i);
        proof {
            lemma_escape_seq_snoc(s@, i as int);
        }
        if c == '\r' {
            out.append("\\r");
            proof {
                reveal_strlit("\\r");
            }
        } else if c == '\n' {
            out.append("\\n");
            proof {
                reveal_strlit("\\n");
            }
        } else if c == '\u{000c}' {
            out.append("\\f");
            proof {
                reveal_strlit("\\f");
            }
        } else if c == '\t' {
            out.append("\\t");
            proof {
                reveal_strlit("\\t");
            }
        } else if c == ' ' || c == ':' || c == '"' || c == '\\' {
            out.append("\\");
            proof {
                reveal_strlit("\\");
            }
            push_char(&mut out, s, i);
            assert(out@ =~= escape_seq(s@.take(i as int)) + escape_char(s@[i as int]));
        } else {
            push_char(&mut out, s, i);
            assert(escape_char(s@[i as int]) =~= seq![s@[i as int]]);
        }
        assert(out@ =~= escape_seq(s@.take(i + 1)));
    }
    assert(s@.take(n as int) =~= s@);
    out
}

/// The canonical rendering of an identifier: URLs verbatim, prefixed
/// identifiers as `prefix:local` and unprefixed names bare, with the
/// prefix, local and name parts escaped.
pub open spec fn render_view(id: IdentView) -> Seq<char> {
    match id {
        IdentView::Url { uri } => uri,
        IdentView::Prefixed { prefix, local } => escape_seq(prefix) + seq![':'] + escape_seq(
            local,
        ),
        IdentView::Unprefixed { name } => escape_seq(name),
    }
}

impl Ident {
    /// Renders the identifier to its canonical textual form.
    pub fn render(&self) -> (r: String)
        ensures
            r@ == render_view(self@),
    {
        match self {
            Ident::Url(u) => u.clone(),
            Ident::Prefixed(p, l) => {
                let mut out = escape_str(p.as_str());
                out.append(":");
                proof {
                    reveal_strlit(":");
                }
                let le = escape_str(l.as_str());
                out.append(le.as_str());
                assert(out@ =~= escape_seq(p@) + seq![':'] + escape_seq(l@));
                out
            },
            Ident::Unprefixed(n) => escape_str(n.as_str()),
        }
    }
}

} // verus!
