//! Finding the matches of a regular expression in a text, and writing the
//! text anew with the matches replaced.
//!
//! The `regex` crate does the matching. What it finds is handed out as plain
//! texts: the stretches between the matches, and each match with its first
//! capture group.

use vstd::prelude::*;
use vstd::string::*;
use crate::text::texts;

verus! {

/// Makes `regex::Regex` known as a type whose values are carried through
/// unopened.
#[verifier::external_type_specification]
#[verifier::external_body]
pub struct ExRegex(regex::Regex);

/// One match of a regular expression.
#[derive(Debug)]
pub struct Hit {
    /// The text that matched.
    pub whole: String,
    /// The text of the first capture group, where there is one and it took
    /// part in the match.
    pub group: Option<String>,
}

/// What a match holds, as plain texts.
pub struct HitView {
    pub whole: Seq<char>,
    pub group: Option<Seq<char>>,
}

impl View for Hit {
    type V = HitView;

    open spec fn view(&self) -> HitView {
        HitView {
            whole: self.whole@,
            group: match self.group {
                Some(g) => Some(g@),
                None => None,
            },
        }
    }
}

/// The views of a list of matches.
pub open spec fn hit_views(list: Seq<Hit>) -> Seq<HitView> {
    Seq::new(list.len(), |i: int| list[i]@)
}

/// Whether `Regex::new` compiles the pattern.
pub uninterp spec fn regex_accepts(pattern: Seq<char>) -> bool;

/// The pattern that a regular expression was compiled from with the
/// default options; nothing for one that was built otherwise.
pub uninterp spec fn regex_source(re: regex::Regex) -> Option<Seq<char>>;

/// The stretches of `text` that no match of `pattern` covers: before the
/// first match, between each two, and after the last.
pub uninterp spec fn regex_gaps(pattern: Seq<char>, text: Seq<char>) -> Seq<Seq<char>>;

/// The successive non-overlapping matches of `pattern` in `text`.
pub uninterp spec fn regex_hits(pattern: Seq<char>, text: Seq<char>) -> Seq<HitView>;

/// The first `n` gaps, each followed by what fills the match after it.
pub open spec fn woven_prefix(gaps: Seq<Seq<char>>, fills: Seq<Seq<char>>, n: int) -> Seq<char>
    decreases n,
{
    if n <= 0 {
        Seq::empty()
    } else {
        woven_prefix(gaps, fills, n - 1) + gaps[n - 1] + fills[n - 1]
    }
}

/// The text made of the gaps with the fills between them.
pub open spec fn woven(gaps: Seq<Seq<char>>, fills: Seq<Seq<char>>) -> Seq<char> {
    woven_prefix(gaps, fills, fills.len() as int) + gaps[fills.len() as int]
}

/// The texts that matched.
pub open spec fn wholes(hits: Seq<HitView>) -> Seq<Seq<char>> {
    Seq::new(hits.len(), |k: int| hits[k].whole)
}

/// Whether the gaps and the matches, taken in turn, make up the text.
pub open spec fn tiles(gaps: Seq<Seq<char>>, hits: Seq<HitView>, text: Seq<char>) -> bool {
    gaps.len() == hits.len() + 1 && woven(gaps, wholes(hits)) == text
}

/// The text of the first capture group of a match, empty where it has none.
pub open spec fn group_text(hit: HitView) -> Seq<char> {
    match hit.group {
        Some(g) => g,
        None => Seq::empty(),
    }
}

/// Calls `Regex::new`. Trusted: whether a regular expression is handed back
/// depends on the pattern alone, and one that is handed back was compiled
/// from the pattern given, with the default options.
#[verifier::external_body]
pub(crate) fn compile(pattern: &str) -> (re: Option<regex::Regex>)
    ensures
        re is Some <==> regex_accepts(pattern@),
        re is Some ==> regex_source(re->0) == Some(pattern@),
{
    regex::Regex::new(pattern).ok()
}

/// Calls `Regex::split` and copies what it yields. Trusted: the result is
/// the stretches of the text between the matches of the pattern. Left out: a
/// regular expression that was not compiled with the default options.
#[verifier::external_body]
pub(crate) fn split_text(re: &regex::Regex, text: &str) -> (gaps: Vec<String>)
    requires
        regex_source(*re) is Some,
    ensures
        texts(gaps@) == regex_gaps(regex_source(*re)->0, text@),
{
    re.split(text).map(|s| s.to_string()).collect()
}

/// Calls `Regex::captures_iter` and copies, of each match, its text and that
/// of its first group. Trusted: the result is the matches of the pattern in
/// the text; they are those that `Regex::split` splits at, so that gaps and
/// matches taken in turn make up the text. Left out: a regular expression
/// that was not compiled with the default options.
#[verifier::external_body]
pub(crate) fn find_hits(re: &regex::Regex, text: &str) -> (hits: Vec<Hit>)
    requires
        regex_source(*re) is Some,
    ensures
        hit_views(hits@) == regex_hits(regex_source(*re)->0, text@),
        tiles(regex_gaps(regex_source(*re)->0, text@), hit_views(hits@), text@),
{
    re.captures_iter(text).map(
        |c| Hit { whole: c[0].to_string(), group: c.get(1).map(|m| m.as_str().to_string()) },
    ).collect()
}

/// Writes the gaps out with the fills between them.
pub fn weave(gaps: &Vec<String>, fills: &Vec<String>) -> (out: String)
    requires
        gaps@.len() == fills@.len() + 1,
    ensures
        out@ == woven(texts(gaps@), texts(fills@)),
{
    let mut out = String::new();
    let mut k: usize = 0;
    while k < fills.len()
        invariant
            k <= fills@.len(),
            gaps@.len() == fills@.len() + 1,
            out@ == woven_prefix(texts(gaps@), texts(fills@), k as int),
        decreases fills@.len() - k,
    {
        out.append(gaps[k].as_str());
        out.append(fills[k].as_str());
        k = k + 1;
    }
    out.append(gaps[k].as_str());
    out
}

} // verus!
