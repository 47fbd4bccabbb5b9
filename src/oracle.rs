//! The fuzzy scoring oracle, backed by nucleo-matcher.
use nucleo_matcher::pattern::CaseMatching as NucleoCase;
use vstd::prelude::*;

verus! {

/// How letter case is treated when a query is matched against an entry.
#[derive(Clone, Copy, Debug, PartialEq, Eq, Structural)]
pub enum CaseMatching {
    /// Case always matters.
    Respect,
    /// Case never matters.
    Ignore,
    /// Case matters only when the query holds an uppercase character.
    Smart,
}

/// What the fuzzy matcher reports for a query and a candidate string: `None`
/// when the candidate does not match, else its score and the positions of
/// the candidate's matched characters. Positions count grapheme clusters
/// (each kept as its first code point), which for plain text are the
/// characters; they are listed query word by query word.
pub uninterp spec fn fuzzy_match(
    query: Seq<char>,
    candidate: Seq<char>,
    case_matching: CaseMatching,
    match_paths: bool,
) -> Option<(u32, Seq<u32>)>;

/// The mathematical form of a match result.
pub open spec fn match_view(r: Option<(u32, Vec<u32>)>) -> Option<(u32, Seq<u32>)> {
    match r {
        Some(m) => Some((m.0, m.1@)),
        None => None,
    }
}

/// A matcher of nucleo_matcher: scratch memory for matching, reused from
/// call to call.
#[verifier::external_type_specification]
#[verifier::external_body]
pub struct ExMatcher(nucleo_matcher::Matcher);

/// The longest query, in characters, that the matcher scores without
/// overflow: it adds a query word's score up in 16 bits, at most 26 for each
/// matched character beyond the first's 36.
pub const MAX_QUERY_LEN: usize = 2048;

/// The longest candidate, in characters, that the matcher takes: it asserts
/// that its own form of the candidate, which can be the UTF-8 bytes, holds at
/// most `u32::MAX` items.
pub const MAX_CANDIDATE_LEN: usize = 1073741823;

/// Relies on nucleo_matcher's `Matcher::new`, which allocates the matcher's
/// scratch memory.
#[verifier::external_body]
pub(crate) fn new_matcher() -> nucleo_matcher::Matcher {
    nucleo_matcher::Matcher::new(nucleo_matcher::Config::DEFAULT)
}

/// Relies on nucleo_matcher's `Pattern::indices`, on a pattern from
/// `Pattern::parse` (smart normalization) and on `matcher` given
/// `Config::DEFAULT`, after `Config::set_match_paths` where path bonuses are
/// asked for (the matcher's scratch memory does not affect results). The
/// matcher panics on a longer candidate than `MAX_CANDIDATE_LEN` allows, and
/// its scores overflow on a query longer than `MAX_QUERY_LEN`. The score and
/// matched positions depend on the query, the candidate and the
/// configuration alone, and a query without atoms (the empty query) matches
/// every candidate with score 0 and no positions.
#[verifier::external_body]
pub(crate) fn score_candidate(
    query: &str,
    candidate: &str,
    case_matching: CaseMatching,
    match_paths: bool,
    matcher: &mut nucleo_matcher::Matcher,
) -> (r: Option<(u32, Vec<u32>)>)
    requires
        query@.len() <= MAX_QUERY_LEN,
        candidate@.len() <= MAX_CANDIDATE_LEN,
    ensures
        match_view(r) == fuzzy_match(query@, candidate@, case_matching, match_paths),
        query@.len() == 0 ==> match_view(r) == Some((0u32, Seq::<u32>::empty())),
{
    let case = match case_matching { CaseMatching::Respect => NucleoCase::Respect, CaseMatching::Ignore => NucleoCase::Ignore, CaseMatching::Smart => NucleoCase::Smart };
    matcher.config = nucleo_matcher::Config::DEFAULT;
    if match_paths { matcher.config.set_match_paths(); }
    let pattern = nucleo_matcher::pattern::Pattern::parse(query, case, nucleo_matcher::pattern::Normalization::Smart);
    let (mut buf, mut indices) = (Vec::new(), Vec::new());
    let haystack = nucleo_matcher::Utf32Str::new(candidate, &mut buf);
    pattern.indices(haystack, matcher, &mut indices).map(|s| (s, indices))
}

} // verus!
