//! Trusted boundary to the external OBO identifier and date grammars.
//!
//! Identifier text arriving from a graph is free text; it is parsed by the
//! `fastobo` crate's grammar. The result of each parse is a function of the
//! input text alone, so it is given a name ([`parsed_ident`],
//! [`creation_date_norm`]) that the wrappers' contracts and their callers
//! speak of. Beside the names stand a few conditional facts that the
//! grammar (`fastobo-syntax`'s `obo14.pest` together with its RFC 3987
//! rules) plainly gives for conservative shapes of input: a plain
//! `http://` IRI parses as a URL identifier verbatim, a plain bare word as
//! an unprefixed identifier, and a plain `prefix:local` form as a prefixed
//! identifier.

use vstd::prelude::*;

use crate::error::{Error, ErrorView};
use crate::ident::{Ident, IdentView};

verus! {

/// What `fastobo`'s identifier grammar makes of a string: `None` when the
/// text is rejected, otherwise the parsed identifier.
pub uninterp spec fn parsed_ident(s: Seq<char>) -> Option<IdentView>;

/// What `fastobo`'s creation-date grammar makes of a string: `None` when
/// the text is rejected, otherwise the canonical rendering of the parsed
/// date.
pub uninterp spec fn creation_date_norm(s: Seq<char>) -> Option<Seq<char>>;

/// An unreserved character: ASCII letters and digits, `-`, `.` and `_`.
pub open spec fn plain_char(c: char) -> bool {
    ('a' <= c && c <= 'z') || ('A' <= c && c <= 'Z') || ('0' <= c && c <= '9') || c == '-' || c
        == '.' || c == '_'
}

/// An ASCII letter.
pub open spec fn alpha_char(c: char) -> bool {
    ('a' <= c && c <= 'z') || ('A' <= c && c <= 'Z')
}

/// A conservative shape of absolute IRI: `http://`, a host of unreserved
/// characters that begins with a letter, a `/`, then a path of unreserved
/// characters and slashes with at most one `#` starting a fragment. The
/// leading letter matters: the grammar's host rule tries a dotted-digit
/// address before a registered name and commits to whatever prefix it
/// matches, so a host starting with a digit can make the whole URL rule
/// fail over a partial address match; a letter sends the host straight to
/// the registered-name alternative, which takes it whole.
pub open spec fn plain_http_iri(s: Seq<char>) -> bool {
    &&& s.len() >= 9
    &&& s.subrange(0, 7) == "http://"@
    &&& alpha_char(s[7])
    &&& (exists|k: int|
        8 <= k < s.len() && s[k] == '/' && (forall|i: int| 7 <= i < k ==> plain_char(s[i])))
    &&& (forall|i: int| 7 <= i < s.len() ==> (plain_char(s[i]) || s[i] == '/' || s[i] == '#'))
    &&& (forall|i: int, j: int|
        7 <= i < s.len() && 7 <= j < s.len() && s[i] == '#' && s[j] == '#' ==> i == j)
}

/// A bare word of unreserved characters: parsed as an unprefixed
/// identifier.
pub open spec fn plain_word(s: Seq<char>) -> bool {
    s.len() > 0 && (forall|i: int| 0 <= i < s.len() ==> plain_char(s[i]))
}

/// Index of the first colon of `s`, or `-1` when there is none.
pub open spec fn first_colon(s: Seq<char>) -> int {
    crate::strutil::first_index_of(s, ':')
}

/// A conservative `prefix:local` shape: a canonical prefix (a letter
/// followed by letters and underscores) before the first colon, and a
/// local part of unreserved characters after it.
pub open spec fn plain_prefixed(s: Seq<char>) -> bool {
    let k = first_colon(s);
    &&& 1 <= k < s.len()
    &&& alpha_char(s[0])
    &&& (forall|i: int| 0 <= i < k ==> (alpha_char(s[i]) || s[i] == '_'))
    &&& (forall|i: int| k < i < s.len() ==> plain_char(s[i]))
}

/// The prefix part of a plain `prefix:local` shape.
pub open spec fn prefixed_prefix(s: Seq<char>) -> Seq<char> {
    s.take(first_colon(s))
}

/// The local part of a plain `prefix:local` shape.
pub open spec fn prefixed_local(s: Seq<char>) -> Seq<char> {
    s.skip(first_colon(s) + 1)
}

/// Parses identifier text with `fastobo`'s grammar.
///
/// Relies on `fastobo::ast::Ident::from_str`: it tokenizes the `Id` rule
/// of the OBO 1.4 grammar (URL, prefixed, or unprefixed identifier, in
/// that order of preference), requires the whole input to be consumed, and
/// unescapes backslash escapes; the three conditional facts below follow
/// from the grammar for inputs with no backslash, whitespace or reserved
/// character.
#[verifier::external_body]
pub fn parse_ident(s: &str) -> (r: Result<Ident, Error>)
    ensures
        match r {
            Ok(id) => parsed_ident(s@) == Some(id@),
            Err(e) => parsed_ident(s@) is None && e@ matches ErrorView::OboSyntax { .. },
        },
        plain_http_iri(s@) ==> match r {
            Ok(id) => id@ == (IdentView::Url { uri: s@ }),
            Err(_) => false,
        },
        plain_word(s@) ==> match r {
            Ok(id) => id@ == (IdentView::Unprefixed { name: s@ }),
            Err(_) => false,
        },
        plain_prefixed(s@) ==> match r {
            Ok(id) => id@ == (IdentView::Prefixed {
                prefix: prefixed_prefix(s@),
                local: prefixed_local(s@),
            }),
            Err(_) => false,
        },
{
    match <fastobo::ast::Ident as std::str::FromStr>::from_str(s) {
        Ok(fastobo::ast::Ident::Url(u)) => Ok(Ident::Url(u.as_str().to_string())),
        Ok(fastobo::ast::Ident::Prefixed(p)) => Ok(
            Ident::Prefixed(p.prefix().to_string(), p.local().to_string()),
        ),
        Ok(fastobo::ast::Ident::Unprefixed(u)) => Ok(Ident::Unprefixed(u.as_str().to_string())),
        Err(e) => Err(Error::OboSyntaxError(e.to_string())),
    }
}

/// Parses creation-date text with `fastobo`'s grammar and returns the
/// canonical rendering of the date.
///
/// Relies on `fastobo::ast::CreationDate::from_str` (an ISO 8601 date or
/// date-time) and on its `Display` rendering; the rendering depends on the
/// parsed date alone. Text containing a comma is excluded: the grammar
/// admits a comma as the decimal separator of fractional seconds, but the
/// date parser then reads the fraction with a float parser that does not,
/// and fails inside the call; callers reject such text before calling.
#[verifier::external_body]
pub fn parse_creation_date(s: &str) -> (r: Result<String, Error>)
    requires
        forall|i: int| 0 <= i < s@.len() ==> s@[i] != ',',
    ensures
        match r {
            Ok(d) => creation_date_norm(s@) == Some(d@),
            Err(e) => creation_date_norm(s@) is None && e@ matches ErrorView::OboSyntax { .. },
        },
{
    match <fastobo::ast::CreationDate as std::str::FromStr>::from_str(s) {
        Ok(d) => Ok(d.to_string()),
        Err(e) => Err(Error::OboSyntaxError(e.to_string())),
    }
}

} // verus!
