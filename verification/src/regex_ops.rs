//! Calls into the `regex` crate.
//!
//! Each wrapper compiles the pattern with `regex::Regex::new` and applies one
//! matching operation.  What a regular expression matches takes the crate's
//! whole engine to state, so each operation's result is given a name over the
//! pattern and the haystack; the verified code above states its contracts over
//! those names.  A pattern that does not compile yields `None`; every pattern
//! the library passes is a fixed literal.

use vstd::prelude::*;

verus! {

/// Whether `regex::Regex::new` accepts the pattern.
pub uninterp spec fn regex_compiles(pattern: Seq<char>) -> bool;

/// What `Regex::replace_all` returns for the pattern, haystack and replacement.
pub uninterp spec fn regex_replace_all_text(pattern: Seq<char>, text: Seq<char>, rep: Seq<char>) -> Seq<char>;

/// What `Regex::replace` (first match only) returns.
pub uninterp spec fn regex_replace_first_text(pattern: Seq<char>, text: Seq<char>, rep: Seq<char>) -> Seq<char>;

/// The texts of the successive matches that `Regex::find_iter` yields.
pub uninterp spec fn regex_match_texts(pattern: Seq<char>, text: Seq<char>) -> Seq<Seq<char>>;

/// The capture groups of the leftmost match that `Regex::captures` yields
/// (`None` when nothing matches); group 0 is the whole match.
pub uninterp spec fn regex_first_captures(pattern: Seq<char>, text: Seq<char>) -> Option<Seq<Option<Seq<char>>>>;

/// The pieces that `Regex::splitn(text, 2)` yields.
pub uninterp spec fn regex_split_once(pattern: Seq<char>, text: Seq<char>) -> Seq<Seq<char>>;

/// `Regex::new(pattern)` followed by `Regex::replace_all(text, rep)`.
/// Claims: `Some` exactly when the pattern compiles, holding the named result.
#[verifier::external_body]
fn regex_replace_all_call(pattern: &str, text: &str, rep: &str) -> (r: Option<String>)
    ensures
        r is Some <==> regex_compiles(pattern@),
        r matches Some(s) ==> s@ == regex_replace_all_text(pattern@, text@, rep@),
{
    regex::Regex::new(pattern).ok().map(|re| re.replace_all(text, rep).into_owned())
}

/// `Regex::new(pattern)` followed by `Regex::replace(text, rep)`.
/// Claims: `Some` exactly when the pattern compiles, holding the named result.
#[verifier::external_body]
fn regex_replace_first_call(pattern: &str, text: &str, rep: &str) -> (r: Option<String>)
    ensures
        r is Some <==> regex_compiles(pattern@),
        r matches Some(s) ==> s@ == regex_replace_first_text(pattern@, text@, rep@),
{
    regex::Regex::new(pattern).ok().map(|re| re.replace(text, rep).into_owned())
}

/// `Regex::new(pattern)` followed by `Regex::find_iter(text)`, keeping each
/// match's text.  Claims: `Some` exactly when the pattern compiles, holding
/// the named result.
#[verifier::external_body]
fn regex_find_iter_call(pattern: &str, text: &str) -> (r: Option<Vec<String>>)
    ensures
        r is Some <==> regex_compiles(pattern@),
        r matches Some(v) ==> v.deep_view() == regex_match_texts(pattern@, text@),
{
    regex::Regex::new(pattern).ok().map(
        |re| re.find_iter(text).map(|m| m.as_str().to_string()).collect(),
    )
}

/// `Regex::new(pattern)` followed by `Regex::captures(text)`, keeping each
/// group's text.  Claims: `Some` exactly when the pattern compiles, holding
/// the named result.
#[verifier::external_body]
fn regex_captures_call(pattern: &str, text: &str) -> (r: Option<Option<Vec<Option<String>>>>)
    ensures
        r is Some <==> regex_compiles(pattern@),
        r matches Some(c) ==> c.deep_view() == regex_first_captures(pattern@, text@),
{
    regex::Regex::new(pattern).ok().map(
        |re| re.captures(text).map(|c| c.iter().map(|g| g.map(|m| m.as_str().to_string())).collect()),
    )
}

/// `Regex::new(pattern)` followed by `Regex::splitn(text, 2)`.
/// Claims: `Some` exactly when the pattern compiles, holding the named result.
#[verifier::external_body]
fn regex_split_once_call(pattern: &str, text: &str) -> (r: Option<Vec<String>>)
    ensures
        r is Some <==> regex_compiles(pattern@),
        r matches Some(v) ==> v.deep_view() == regex_split_once(pattern@, text@),
{
    regex::Regex::new(pattern).ok().map(
        |re| re.splitn(text, 2).map(|p| p.to_string()).collect(),
    )
}

// ------------------------------------------------------------------
// Operations with a defined result for every pattern
// ------------------------------------------------------------------

/// `replace_all`, leaving the text unchanged if the pattern does not compile.
pub open spec fn re_replace_all(pattern: Seq<char>, text: Seq<char>, rep: Seq<char>) -> Seq<char> {
    if regex_compiles(pattern) {
        regex_replace_all_text(pattern, text, rep)
    } else {
        text
    }
}

/// `replace`, leaving the text unchanged if the pattern does not compile.
pub open spec fn re_replace_first(pattern: Seq<char>, text: Seq<char>, rep: Seq<char>) -> Seq<char> {
    if regex_compiles(pattern) {
        regex_replace_first_text(pattern, text, rep)
    } else {
        text
    }
}

/// The texts of all matches (none if the pattern does not compile).
pub open spec fn re_matches(pattern: Seq<char>, text: Seq<char>) -> Seq<Seq<char>> {
    if regex_compiles(pattern) {
        regex_match_texts(pattern, text)
    } else {
        Seq::empty()
    }
}

/// The capture groups of the first match (none if the pattern does not compile).
pub open spec fn re_captures(pattern: Seq<char>, text: Seq<char>) -> Option<Seq<Option<Seq<char>>>> {
    if regex_compiles(pattern) {
        regex_first_captures(pattern, text)
    } else {
        None
    }
}

/// Group `g` of the first match, when there is one and the group took part.
pub open spec fn re_group(pattern: Seq<char>, text: Seq<char>, g: int) -> Option<Seq<char>> {
    match re_captures(pattern, text) {
        Some(groups) => if 0 <= g < groups.len() {
            groups[g]
        } else {
            None
        },
        None => None,
    }
}

/// The text before and after the first match, when there is one.
pub open spec fn re_split_once(pattern: Seq<char>, text: Seq<char>) -> Option<(Seq<char>, Seq<char>)> {
    if regex_compiles(pattern) && regex_split_once(pattern, text).len() == 2 {
        Some((regex_split_once(pattern, text)[0], regex_split_once(pattern, text)[1]))
    } else {
        None
    }
}

pub fn replace_all(pattern: &str, text: &str, rep: &str) -> (r: String)
    ensures
        r@ == re_replace_all(pattern@, text@, rep@),
{
    match regex_replace_all_call(pattern, text, rep) {
        Some(s) => s,
        None => text.to_owned(),
    }
}

pub fn replace_first(pattern: &str, text: &str, rep: &str) -> (r: String)
    ensures
        r@ == re_replace_first(pattern@, text@, rep@),
{
    match regex_replace_first_call(pattern, text, rep) {
        Some(s) => s,
        None => text.to_owned(),
    }
}

pub fn match_texts(pattern: &str, text: &str) -> (r: Vec<String>)
    ensures
        r.deep_view() == re_matches(pattern@, text@),
{
    match regex_find_iter_call(pattern, text) {
        Some(v) => v,
        None => {
            let v: Vec<String> = Vec::new();
            assert(v.deep_view() =~= Seq::<Seq<char>>::empty());
            v
        },
    }
}

/// Group `g` of the first match.
pub fn group(pattern: &str, text: &str, g: usize) -> (r: Option<String>)
    ensures
        r.deep_view() == re_group(pattern@, text@, g as int),
{
    match regex_captures_call(pattern, text) {
        Some(Some(groups)) => {
            if g < groups.len() {
                let ghost gv = groups.deep_view();
                assert(gv[g as int] == groups@[g as int].deep_view());
                match &groups[g] {
                    Some(t) => Some(t.clone()),
                    None => None,
                }
            } else {
                None
            }
        },
        _ => None,
    }
}

/// The text before and after the first match.
pub fn split_once(pattern: &str, text: &str) -> (r: Option<(String, String)>)
    ensures
        match r {
            Some((a, b)) => re_split_once(pattern@, text@) == Some((a@, b@)),
            None => re_split_once(pattern@, text@) is None,
        },
{
    match regex_split_once_call(pattern, text) {
        Some(pieces) => {
            if pieces.len() == 2 {
                let ghost pv = pieces.deep_view();
                assert(pv[0] == pieces@[0]@ && pv[1] == pieces@[1]@);
                Some((pieces[0].clone(), pieces[1].clone()))
            } else {
                None
            }
        },
        None => None,
    }
}

} // verus!
