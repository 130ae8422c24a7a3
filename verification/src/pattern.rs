//! Trusted boundary around the regular-expression engine.
//!
//! Matching, capturing and substitution are performed by the `regex` crate.
//! What each call returns is a function of the expression and the haystack
//! alone, so the results are given uninterpreted names here, and the
//! wrappers' contracts speak of those names. The editing logic built on top
//! of this module is verified against these contracts.
use vstd::prelude::*;

verus! {

/// Whether the regular-expression engine accepts the expression
/// (`regex::Regex::new` returns `Ok`).
pub uninterp spec fn valid_pattern(rx: Seq<char>) -> bool;

/// The expression a compiled regular expression was built from
/// (what `regex::Regex::as_str` returns).
pub uninterp spec fn pattern_of(re: regex::Regex) -> Seq<char>;

/// Whether the expression matches anywhere in the text
/// (what `regex::Regex::is_match` returns).
pub uninterp spec fn regex_matches(rx: Seq<char>, text: Seq<char>) -> bool;

/// The capture groups of every non-overlapping match of the expression in
/// the text, in document order; within a match, one entry per group in
/// group order (group 0, the whole match, first), `None` where the group
/// did not participate (what `regex::Regex::captures_iter` yields).
pub uninterp spec fn all_captures(rx: Seq<char>, text: Seq<char>) -> Seq<Seq<Option<Seq<char>>>>;

/// The text with every non-overlapping match of the expression replaced by
/// the value, `$name`/`${name}`/`$N` group references expanded (what
/// `regex::Regex::replace_all` returns).
pub uninterp spec fn replaced(rx: Seq<char>, text: Seq<char>, value: Seq<char>) -> Seq<char>;

/// The text with every non-overlapping match of the expression replaced by
/// the value taken verbatim (what `regex::Regex::replace_all` returns when
/// the value is shielded with `regex::NoExpand`).
pub uninterp spec fn replaced_verbatim(rx: Seq<char>, text: Seq<char>, value: Seq<char>) -> Seq<char>;

#[verifier::external_type_specification]
#[verifier::external_body]
pub struct ExRegex(regex::Regex);

/// One match's groups as mathematical values.
pub open spec fn groups_view(groups: Seq<Option<String>>) -> Seq<Option<Seq<char>>> {
    groups.map_values(
        |group: Option<String>|
            match group {
                Option::Some(s) => Option::Some(s@),
                Option::None => Option::None,
            },
    )
}

/// All matches' groups as mathematical values.
pub open spec fn caps_view(caps: Seq<Vec<Option<String>>>) -> Seq<Seq<Option<Seq<char>>>> {
    caps.map_values(|groups: Vec<Option<String>>| groups_view(groups@))
}

/// Relies on `regex::Regex::new`: compilation succeeds exactly on the
/// expressions the engine accepts, and the compiled value holds the
/// expression it was built from (`regex::Regex::as_str`).
#[verifier::external_body]
pub(crate) fn compile(rx: &str) -> (r: Option<regex::Regex>)
    ensures
        r is Some <==> valid_pattern(rx@),
        r matches Some(re) ==> pattern_of(re) == rx@,
{
    regex::Regex::new(rx).ok()
}

/// Relies on `regex::Regex::is_match`: returns true if and only if there is
/// a match for the expression anywhere in the text.
#[verifier::external_body]
pub(crate) fn is_match(re: &regex::Regex, text: &str) -> (r: bool)
    ensures
        r == regex_matches(pattern_of(*re), text@),
{
    re.is_match(text)
}

/// Relies on `regex::Regex::captures_iter` and `regex::Captures::iter`: one
/// entry per non-overlapping match, in document order; within a match, one
/// entry per capture group in group order (group 0 first), `None` where the
/// group did not participate. A match exists iff `regex::Regex::is_match`
/// returns true, and group 0 — the whole match — always participates.
#[verifier::external_body]
pub(crate) fn captures_of(re: &regex::Regex, text: &str) -> (r: Vec<Vec<Option<String>>>)
    ensures
        caps_view(r@) == all_captures(pattern_of(*re), text@),
        r@.len() > 0 <==> regex_matches(pattern_of(*re), text@),
        forall|i: int|
            0 <= i < r@.len() ==> #[trigger] r@[i]@.len() > 0 && r@[i]@[0] is Some,
{
    let mut caps: Vec<Vec<Option<String>>> = Vec::new();
    for cap in re.captures_iter(text) {
        let mut groups: Vec<Option<String>> = Vec::new();
        for m in cap.iter() {
            groups.push(m.map(|x| x.as_str().to_string()));
        }
        caps.push(groups);
    }
    caps
}

/// Relies on `regex::Regex::replace_all`: replaces every non-overlapping
/// match with the value, expanding `$name`/`${name}`/`$N` group references;
/// when there is no match the text comes back unchanged.
#[verifier::external_body]
pub(crate) fn replace_with(re: &regex::Regex, text: &str, value: &str) -> (r: String)
    ensures
        r@ == replaced(pattern_of(*re), text@, value@),
        !regex_matches(pattern_of(*re), text@) ==> r@ == text@,
        !regex_matches(pattern_of(*re), r@) ==> replaced(pattern_of(*re), r@, value@) == r@,
{
    re.replace_all(text, value).to_string()
}

/// Relies on `regex::Regex::replace_all` with `regex::NoExpand`: replaces
/// every non-overlapping match with the value inserted verbatim (`$` is
/// never treated as a group reference); when there is no match the text
/// comes back unchanged.
#[verifier::external_body]
pub(crate) fn replace_verbatim(re: &regex::Regex, text: &str, value: &str) -> (r: String)
    ensures
        r@ == replaced_verbatim(pattern_of(*re), text@, value@),
        !regex_matches(pattern_of(*re), text@) ==> r@ == text@,
        !regex_matches(pattern_of(*re), r@) ==> replaced_verbatim(pattern_of(*re), r@, value@) == r@,
{
    re.replace_all(text, regex::NoExpand(value)).to_string()
}

} // verus!
