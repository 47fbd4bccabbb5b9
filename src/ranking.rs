//! The ranking engine: scores every entry against the query, drops those that
//! do not match, and orders the rest.
use crate::oracle::{fuzzy_match, score_candidate, CaseMatching, MAX_CANDIDATE_LEN, MAX_QUERY_LEN};
use crate::text::chars_of;
use core::cmp::Ordering;
use vstd::prelude::*;

verus! {

/// An entry in the picker: the string that is displayed and searched, and
/// extra data that is handed back when the entry is selected.
#[derive(Debug, Clone, Default)]
pub struct Entry<T> {
    /// String that is displayed in the picker and filtered when searching.
    pub string: String,
    /// Extra data carried by the entry.
    pub data: T,
}

impl<T> AsRef<str> for Entry<T> {
    fn as_ref(&self) -> &str {
        self.string.as_str()
    }
}

/// An entry that matched the current query, with its score and the positions
/// of its matched characters.
pub struct SearchResult {
    /// Position of the entry in the picker's list of entries.
    pub entry: usize,
    /// The characters of the entry's string.
    pub chars: Vec<char>,
    /// Match score: higher is better.
    pub score: u32,
    /// Positions (in characters) of the matched characters.
    pub indices: Vec<u32>,
}

/// Every entry's string is short enough for the matcher: at most
/// `MAX_CANDIDATE_LEN` characters.
pub open spec fn entries_fit<T>(entries: Seq<Entry<T>>) -> bool {
    forall|i: int| 0 <= i < entries.len() ==> #[trigger] entries[i].string@.len() <= MAX_CANDIDATE_LEN
}

/// The strings of a list of entries.
pub open spec fn strings_of<T>(entries: Seq<Entry<T>>) -> Seq<Seq<char>> {
    entries.map_values(|e: Entry<T>| e.string@)
}

/// The earliest (smallest) matched position, if any. The matcher lists
/// positions query word by query word, so the smallest need not come first.
pub open spec fn earliest_index(indices: Seq<u32>) -> Option<u32>
    decreases indices.len(),
{
    if indices.len() == 0 {
        None
    } else {
        match earliest_index(indices.drop_last()) {
            None => Some(indices.last()),
            Some(m) => if indices.last() < m {
                Some(indices.last())
            } else {
                Some(m)
            },
        }
    }
}

/// Lexicographic comparison of `a` and `b` from position `i` on, by code
/// point: negative, zero or positive.
pub open spec fn lex_cmp_from(a: Seq<char>, b: Seq<char>, i: nat) -> int
    decreases a.len() + b.len() - 2 * i,
{
    if i >= a.len() && i >= b.len() {
        0
    } else if i >= a.len() {
        -1
    } else if i >= b.len() {
        1
    } else if a[i as int] == b[i as int] {
        lex_cmp_from(a, b, i + 1)
    } else if a[i as int] < b[i as int] {
        -1
    } else {
        1
    }
}

/// Lexicographic comparison by code point, which is the order of the UTF-8
/// bytes.
pub open spec fn lex_cmp(a: Seq<char>, b: Seq<char>) -> int {
    lex_cmp_from(a, b, 0)
}

/// Comparison of two optional positions, `None` first.
pub open spec fn position_cmp(a: Option<u32>, b: Option<u32>) -> int {
    match (a, b) {
        (None, None) => 0,
        (None, Some(_)) => -1,
        (Some(_), None) => 1,
        (Some(x), Some(y)) => if x < y {
            -1
        } else if x > y {
            1
        } else {
            0
        },
    }
}

/// The order of two match results, negative when the first is ranked first:
/// higher score first, then earliest matched position, then string.
pub open spec fn result_order(
    score_a: u32,
    indices_a: Seq<u32>,
    chars_a: Seq<char>,
    score_b: u32,
    indices_b: Seq<u32>,
    chars_b: Seq<char>,
) -> int {
    if score_a > score_b {
        -1
    } else if score_a < score_b {
        1
    } else if position_cmp(earliest_index(indices_a), earliest_index(indices_b)) != 0 {
        position_cmp(earliest_index(indices_a), earliest_index(indices_b))
    } else {
        lex_cmp(chars_a, chars_b)
    }
}

/// An `Ordering` as negative, zero or positive.
pub open spec fn ordering_sign(o: Ordering) -> int {
    match o {
        Ordering::Less => -1,
        Ordering::Equal => 0,
        Ordering::Greater => 1,
    }
}

/// The sign of an integer.
pub open spec fn sign(x: int) -> int {
    if x < 0 {
        -1
    } else if x > 0 {
        1
    } else {
        0
    }
}

/// Whether entry `i` is ranked strictly after entry `j`, both matching.
pub open spec fn ranks_after(
    strs: Seq<Seq<char>>,
    query: Seq<char>,
    case_matching: CaseMatching,
    match_paths: bool,
    i: int,
    j: int,
) -> bool {
    let a = fuzzy_match(query, strs[i], case_matching, match_paths).unwrap();
    let b = fuzzy_match(query, strs[j], case_matching, match_paths).unwrap();
    result_order(a.0, a.1, strs[i], b.0, b.1, strs[j]) > 0
}

/// Where entry `i` goes in `order`: before the first entry ranked after it.
pub open spec fn insert_position(
    strs: Seq<Seq<char>>,
    query: Seq<char>,
    case_matching: CaseMatching,
    match_paths: bool,
    order: Seq<int>,
    i: int,
) -> nat
    decreases order.len(),
{
    if order.len() == 0 {
        0
    } else if ranks_after(strs, query, case_matching, match_paths, order[0], i) {
        0
    } else {
        1 + insert_position(strs, query, case_matching, match_paths, order.drop_first(), i)
    }
}

/// The positions of the matching entries among the first `n`, in ranked
/// order. Ties (equal strings) keep the order of the entries.
pub open spec fn ranking_upto(
    strs: Seq<Seq<char>>,
    query: Seq<char>,
    case_matching: CaseMatching,
    match_paths: bool,
    n: nat,
) -> Seq<int>
    decreases n,
{
    if n == 0 {
        Seq::empty()
    } else {
        let prev = ranking_upto(strs, query, case_matching, match_paths, (n - 1) as nat);
        let i = n - 1;
        if fuzzy_match(query, strs[i], case_matching, match_paths) is Some {
            prev.insert(
                insert_position(strs, query, case_matching, match_paths, prev, i) as int,
                i,
            )
        } else {
            prev
        }
    }
}

/// The positions of the matching entries, in ranked order.
pub open spec fn ranking(
    strs: Seq<Seq<char>>,
    query: Seq<char>,
    case_matching: CaseMatching,
    match_paths: bool,
) -> Seq<int> {
    ranking_upto(strs, query, case_matching, match_paths, strs.len())
}

/// `results` holds, in order, one result for each entry of `order`, with that
/// entry's string and what the matcher reports of it.
pub open spec fn results_follow(
    results: Seq<SearchResult>,
    strs: Seq<Seq<char>>,
    query: Seq<char>,
    case_matching: CaseMatching,
    match_paths: bool,
    order: Seq<int>,
) -> bool {
    &&& results.len() == order.len()
    &&& forall|k: int|
        0 <= k < results.len() ==> #[trigger] result_of(
            results[k],
            strs,
            query,
            case_matching,
            match_paths,
            order[k],
        )
}

/// `result` is the result for entry `i`: that entry's position and string, and
/// what the matcher reports of it.
pub open spec fn result_of(
    result: SearchResult,
    strs: Seq<Seq<char>>,
    query: Seq<char>,
    case_matching: CaseMatching,
    match_paths: bool,
    i: int,
) -> bool {
    &&& result.entry == i
    &&& 0 <= i < strs.len()
    &&& result.chars@ == strs[i]
    &&& fuzzy_match(query, strs[i], case_matching, match_paths) == Some(
        (result.score, result.indices@),
    )
}

/// `results` is the ranked list of the entries with strings `strs`.
pub open spec fn results_ranked(
    results: Seq<SearchResult>,
    strs: Seq<Seq<char>>,
    query: Seq<char>,
    case_matching: CaseMatching,
    match_paths: bool,
) -> bool {
    results_follow(
        results,
        strs,
        query,
        case_matching,
        match_paths,
        ranking(strs, query, case_matching, match_paths),
    )
}

/// Lexicographic comparison of two character sequences by code point.
fn lex_compare(a: &Vec<char>, b: &Vec<char>) -> (r: Ordering)
    ensures
        ordering_sign(r) == lex_cmp(a@, b@),
{
    let mut i: usize = 0;
    while i < a.len() && i < b.len()
        invariant
            i <= a.len(),
            i <= b.len(),
            lex_cmp(a@, b@) == lex_cmp_from(a@, b@, i as nat),
        decreases a.len() - i,
    {
        if a[i] != b[i] {
            if a[i] < b[i] {
                return Ordering::Less;
            }
            return Ordering::Greater;
        }
        i = i + 1;
    }
    if i < b.len() {
        Ordering::Less
    } else if i < a.len() {
        Ordering::Greater
    } else {
        Ordering::Equal
    }
}

/// The smallest of the positions, if there are any.
fn earliest(indices: &Vec<u32>) -> (r: Option<u32>)
    ensures
        r == earliest_index(indices@),
{
    let mut best: Option<u32> = None;
    let mut i: usize = 0;
    while i < indices.len()
        invariant
            i <= indices@.len(),
            best == earliest_index(indices@.subrange(0, i as int)),
        decreases indices.len() - i,
    {
        assert(indices@.subrange(0, i + 1).drop_last() =~= indices@.subrange(0, i as int));
        let x = indices[i];
        best = match best {
            None => Some(x),
            Some(m) => if x < m {
                Some(x)
            } else {
                Some(m)
            },
        };
        i = i + 1;
    }
    assert(indices@.subrange(0, indices@.len() as int) =~= indices@);
    best
}

impl SearchResult {
    /// The ranking order: higher score first, then earliest matched
    /// position, then string.
    pub fn rank_cmp(&self, other: &SearchResult) -> (r: Ordering)
        ensures
            ordering_sign(r) == sign(
                result_order(
                    self.score,
                    self.indices@,
                    self.chars@,
                    other.score,
                    other.indices@,
                    other.chars@,
                ),
            ),
    {
        if self.score > other.score {
            return Ordering::Less;
        }
        if self.score < other.score {
            return Ordering::Greater;
        }
        let a_first = earliest(&self.indices);
        let b_first = earliest(&other.indices);
        match (a_first, b_first) {
            (None, Some(_)) => {
                return Ordering::Less;
            },
            (Some(_), None) => {
                return Ordering::Greater;
            },
            (Some(x), Some(y)) => {
                if x < y {
                    return Ordering::Less;
                }
                if x > y {
                    return Ordering::Greater;
                }
            },
            (None, None) => {},
        }
        lex_compare(&self.chars, &other.chars)
    }

    /// Whether this result is ranked strictly after `other`.
    pub fn ranks_after(&self, other: &SearchResult) -> (r: bool)
        ensures
            r == (result_order(
                self.score,
                self.indices@,
                self.chars@,
                other.score,
                other.indices@,
                other.chars@,
            ) > 0),
    {
        let o = self.rank_cmp(other);
        match o {
            Ordering::Greater => true,
            _ => false,
        }
    }
}

/// Lexicographic comparison reports equality only of equal sequences.
proof fn lemma_lex_cmp_zero(a: Seq<char>, b: Seq<char>, i: nat)
    requires
        i <= a.len(),
        i <= b.len(),
        lex_cmp_from(a, b, i) == 0,
    ensures
        a.len() == b.len(),
        forall|k: int| i <= k < a.len() ==> a[k] == b[k],
    decreases a.len() + b.len() - 2 * i,
{
    if i < a.len() && i < b.len() {
        lemma_lex_cmp_zero(a, b, i + 1);
    }
}

/// The ranking order is total on strings: two results that it reports as
/// equal have the same string.
pub proof fn lemma_order_equal_same_string(
    score_a: u32,
    indices_a: Seq<u32>,
    chars_a: Seq<char>,
    score_b: u32,
    indices_b: Seq<u32>,
    chars_b: Seq<char>,
)
    requires
        result_order(score_a, indices_a, chars_a, score_b, indices_b, chars_b) == 0,
    ensures
        chars_a == chars_b,
{
    lemma_lex_cmp_zero(chars_a, chars_b, 0);
    assert(chars_a =~= chars_b);
}

/// Lexicographic comparison is antisymmetric.
proof fn lemma_lex_antisymmetric(a: Seq<char>, b: Seq<char>, i: nat)
    ensures
        lex_cmp_from(a, b, i) == -lex_cmp_from(b, a, i),
    decreases a.len() + b.len() - 2 * i,
{
    if i < a.len() && i < b.len() {
        if a[i as int] == b[i as int] {
            lemma_lex_antisymmetric(a, b, i + 1);
        }
    }
}

/// Lexicographic comparison is transitive.
proof fn lemma_lex_transitive(a: Seq<char>, b: Seq<char>, c: Seq<char>, i: nat)
    requires
        lex_cmp_from(a, b, i) <= 0,
        lex_cmp_from(b, c, i) <= 0,
    ensures
        lex_cmp_from(a, c, i) <= 0,
    decreases a.len() + b.len() - 2 * i,
{
    if i < a.len() && i < b.len() && i < c.len() && a[i as int] == b[i as int] && b[i as int]
        == c[i as int] {
        lemma_lex_transitive(a, b, c, i + 1);
    }
}

/// The order of two results, by their scores, matched positions and strings.
pub open spec fn order_of(a: SearchResult, b: SearchResult) -> int {
    result_order(a.score, a.indices@, a.chars@, b.score, b.indices@, b.chars@)
}

/// The ranking order is antisymmetric and transitive.
pub proof fn lemma_order_is_preorder(a: SearchResult, b: SearchResult, c: SearchResult)
    ensures
        order_of(a, b) == -order_of(b, a),
        order_of(a, b) <= 0 && order_of(b, c) <= 0 ==> order_of(a, c) <= 0,
{
    lemma_lex_antisymmetric(a.chars@, b.chars@, 0);
    if order_of(a, b) <= 0 && order_of(b, c) <= 0 {
        if a.score == b.score && b.score == c.score && position_cmp(
            earliest_index(a.indices@),
            earliest_index(b.indices@),
        ) == 0 && position_cmp(earliest_index(b.indices@), earliest_index(c.indices@)) == 0 {
            lemma_lex_transitive(a.chars@, b.chars@, c.chars@, 0);
        }
    }
}

/// Each result is ranked no later than those after it.
pub open spec fn sorted_by_rank(results: Seq<SearchResult>) -> bool {
    forall|j: int, k: int| 0 <= j < k < results.len() ==> #[trigger] order_of(results[j], results[k]) <= 0
}

/// Ranking is deterministic: any two ranked result lists for the same entries,
/// query and configuration agree at every position on entry, string, score
/// and matched positions.
pub proof fn lemma_ranking_deterministic<T>(
    entries: Seq<Entry<T>>,
    query: Seq<char>,
    case_matching: CaseMatching,
    match_paths: bool,
    first: Seq<SearchResult>,
    second: Seq<SearchResult>,
)
    requires
        results_ranked(first, strings_of(entries), query, case_matching, match_paths),
        results_ranked(second, strings_of(entries), query, case_matching, match_paths),
    ensures
        first.len() == second.len(),
        forall|k: int|
            0 <= k < first.len() ==> {
                &&& (#[trigger] first[k]).entry == second[k].entry
                &&& first[k].chars@ == second[k].chars@
                &&& first[k].score == second[k].score
                &&& first[k].indices@ == second[k].indices@
            },
{
    let strs = strings_of(entries);
    let order = ranking(strs, query, case_matching, match_paths);
    assert forall|k: int| 0 <= k < first.len() implies {
        &&& (#[trigger] first[k]).entry == second[k].entry
        &&& first[k].chars@ == second[k].chars@
        &&& first[k].score == second[k].score
        &&& first[k].indices@ == second[k].indices@
    } by {
        assert(result_of(first[k], strs, query, case_matching, match_paths, order[k]));
        assert(result_of(second[k], strs, query, case_matching, match_paths, order[k]));
    }
}

/// An entry goes no further than the end of the order.
proof fn lemma_insert_position_bound(
    strs: Seq<Seq<char>>,
    query: Seq<char>,
    case_matching: CaseMatching,
    match_paths: bool,
    order: Seq<int>,
    i: int,
)
    ensures
        insert_position(strs, query, case_matching, match_paths, order, i) <= order.len(),
    decreases order.len(),
{
    if order.len() > 0 {
        lemma_insert_position_bound(strs, query, case_matching, match_paths, order.drop_first(), i);
    }
}

/// Every matching entry among the first `n` is in their ranking.
proof fn lemma_ranking_holds_matches(
    strs: Seq<Seq<char>>,
    query: Seq<char>,
    case_matching: CaseMatching,
    match_paths: bool,
    n: nat,
)
    requires
        n <= strs.len(),
    ensures
        forall|i: int|
            0 <= i < n && (fuzzy_match(query, strs[i], case_matching, match_paths) is Some)
                ==> #[trigger] ranking_upto(strs, query, case_matching, match_paths, n).contains(i),
    decreases n,
{
    if n > 0 {
        let prev = ranking_upto(strs, query, case_matching, match_paths, (n - 1) as nat);
        lemma_ranking_holds_matches(strs, query, case_matching, match_paths, (n - 1) as nat);
        let i = n - 1;
        if fuzzy_match(query, strs[i], case_matching, match_paths) is Some {
            let pos = insert_position(strs, query, case_matching, match_paths, prev, i) as int;
            lemma_insert_position_bound(strs, query, case_matching, match_paths, prev, i);
            let next = prev.insert(pos, i);
            assert forall|j: int|
                0 <= j < n && (fuzzy_match(query, strs[j], case_matching, match_paths) is Some)
                    implies #[trigger] ranking_upto(strs, query, case_matching, match_paths, n).contains(j) by {
                if j == i {
                    assert(next[pos] == i);
                } else {
                    assert(prev.contains(j));
                    let k = choose|k: int| 0 <= k < prev.len() && prev[k] == j;
                    if k < pos {
                        assert(next[k] == j);
                    } else {
                        assert(next[k + 1] == j);
                    }
                }
            }
        }
    }
}

/// Where every entry among the first `n` matches, their ranking holds all of
/// them.
proof fn lemma_ranking_all_match(
    strs: Seq<Seq<char>>,
    query: Seq<char>,
    case_matching: CaseMatching,
    match_paths: bool,
    n: nat,
)
    requires
        n <= strs.len(),
        forall|i: int|
            0 <= i < n ==> (#[trigger] fuzzy_match(query, strs[i], case_matching, match_paths)) is Some,
    ensures
        ranking_upto(strs, query, case_matching, match_paths, n).len() == n,
    decreases n,
{
    if n > 0 {
        let prev = ranking_upto(strs, query, case_matching, match_paths, (n - 1) as nat);
        lemma_ranking_all_match(strs, query, case_matching, match_paths, (n - 1) as nat);
        lemma_insert_position_bound(strs, query, case_matching, match_paths, prev, n - 1);
        assert(fuzzy_match(query, strs[n - 1], case_matching, match_paths) is Some);
    }
}

/// A result with score 0 and no matched positions, as every entry gets from
/// the empty query.
pub open spec fn unscored(result: SearchResult) -> bool {
    result.score == 0 && result.indices@.len() == 0
}

/// Whether some result is for entry `i`.
pub open spec fn lists_entry(results: Seq<SearchResult>, i: int) -> bool {
    exists|k: int| 0 <= k < results.len() && #[trigger] results[k].entry == i
}

/// Scores every entry against `query` and returns the matching ones in ranked
/// order: higher score first, then earliest matched position, then
/// string, and entries with equal strings in their original order. Every
/// matching entry has exactly one result; with an empty query every entry
/// matches.
pub fn rank_entries<T>(
    entries: &Vec<Entry<T>>,
    query: &str,
    case_matching: CaseMatching,
    match_paths: bool,
    matcher: &mut nucleo_matcher::Matcher,
) -> (r: Vec<SearchResult>)
    requires
        entries_fit(entries@),
        query@.len() <= MAX_QUERY_LEN,
    ensures
        results_ranked(r@, strings_of(entries@), query@, case_matching, match_paths),
        sorted_by_rank(r@),
        forall|a: int, b: int| 0 <= a < b < r@.len() ==> #[trigger] r@[a].entry != #[trigger] r@[b].entry,
        forall|i: int|
            0 <= i < entries@.len() && fuzzy_match(
                query@,
                entries@[i].string@,
                case_matching,
                match_paths,
            ) is Some ==> #[trigger] lists_entry(r@, i),
        query@.len() == 0 ==> forall|i: int|
            0 <= i < entries@.len() ==> #[trigger] lists_entry(r@, i),
        query@.len() == 0 ==> r@.len() == entries@.len(),
        query@.len() == 0 ==> forall|k: int| 0 <= k < r@.len() ==> #[trigger] unscored(r@[k]),
{
    let ghost strs = strings_of(entries@);
    let mut results: Vec<SearchResult> = Vec::new();
    let mut n: usize = 0;
    while n < entries.len()
        invariant
            n <= entries.len(),
            entries_fit(entries@),
            query@.len() <= MAX_QUERY_LEN,
            strs == strings_of(entries@),
            sorted_by_rank(results@),
            forall|k: int| 0 <= k < results@.len() ==> #[trigger] results@[k].entry < n,
            forall|a: int, b: int|
                0 <= a < b < results@.len() ==> #[trigger] results@[a].entry != #[trigger] results@[b].entry,
            query@.len() == 0 ==> forall|i: int|
                0 <= i < n ==> #[trigger] fuzzy_match(query@, strs[i], case_matching, match_paths)
                    == Some((0u32, Seq::<u32>::empty())),
            results_follow(
                results@,
                strs,
                query@,
                case_matching,
                match_paths,
                ranking_upto(strs, query@, case_matching, match_paths, n as nat),
            ),
        decreases entries.len() - n,
    {
        let ghost order = ranking_upto(strs, query@, case_matching, match_paths, n as nat);
        assert(strs[n as int] == entries@[n as int].string@);
        assert(entries@[n as int].string@.len() <= MAX_CANDIDATE_LEN);
        let scored = score_candidate(
            query,
            entries[n].string.as_str(),
            case_matching,
            match_paths,
            matcher,
        );
        if let Some((score, indices)) = scored {
            let chars = chars_of(entries[n].string.as_str());
            let candidate = SearchResult { entry: n, chars, score, indices };
            let mut j: usize = 0;
            assert(order.subrange(0, order.len() as int) =~= order);
            while j < results.len() && !results[j].ranks_after(&candidate)
                invariant
                    j <= results.len(),
                    results_follow(results@, strs, query@, case_matching, match_paths, order),
                    sorted_by_rank(results@),
                    forall|k: int| 0 <= k < results@.len() ==> #[trigger] results@[k].entry < n,
                    forall|a: int, b: int|
                        0 <= a < b < results@.len() ==> #[trigger] results@[a].entry != #[trigger] results@[b].entry,
                    forall|i: int| 0 <= i < j ==> #[trigger] order_of(results@[i], candidate) <= 0,
                    strs == strings_of(entries@),
                    n < entries.len(),
                    candidate.entry == n,
                    candidate.chars@ == strs[n as int],
                    fuzzy_match(query@, strs[n as int], case_matching, match_paths) == Some(
                        (candidate.score, candidate.indices@),
                    ),
                    insert_position(strs, query@, case_matching, match_paths, order, n as int)
                        == j + insert_position(
                        strs,
                        query@,
                        case_matching,
                        match_paths,
                        order.subrange(j as int, order.len() as int),
                        n as int,
                    ),
                decreases results.len() - j,
            {
                let ghost rest = order.subrange(j as int, order.len() as int);
                assert(rest.drop_first() =~= order.subrange(j + 1, order.len() as int));
                assert(rest[0] == order[j as int]);
                assert(result_of(results@[j as int], strs, query@, case_matching, match_paths, order[j as int]));
                assert(!ranks_after(strs, query@, case_matching, match_paths, order[j as int], n as int));
                j = j + 1;
            }
            proof {
                let rest = order.subrange(j as int, order.len() as int);
                if j < results.len() {
                    assert(rest[0] == order[j as int]);
                    assert(result_of(results@[j as int], strs, query@, case_matching, match_paths, order[j as int]));
                    assert(ranks_after(strs, query@, case_matching, match_paths, order[j as int], n as int));
                }
                assert(insert_position(strs, query@, case_matching, match_paths, order, n as int) == j);
            }
            let ghost before = results@;
            let ghost cand = candidate;
            results.insert(j, candidate);
            assert forall|a: int, b: int|
                0 <= a < b < results@.len() implies #[trigger] results@[a].entry != #[trigger] results@[b].entry by {
                if a < j && b < j {
                    assert(before[a].entry != before[b].entry);
                } else if a < j && b > j {
                    assert(before[a].entry != before[b - 1].entry);
                } else if a > j && b > j {
                    assert(before[a - 1].entry != before[b - 1].entry);
                } else if a == j {
                    assert(before[b - 1].entry < n);
                } else {
                    assert(before[a].entry < n);
                }
            }
            assert forall|k: int| 0 <= k < results@.len() implies #[trigger] results@[k].entry < n + 1 by {
                if k < j {
                    assert(before[k].entry < n);
                } else if k > j {
                    assert(before[k - 1].entry < n);
                }
            }
            assert(sorted_by_rank(results@)) by {
                assert forall|a: int, b: int| 0 <= a < b < results@.len() implies #[trigger] order_of(
                    results@[a],
                    results@[b],
                ) <= 0 by {
                    if a < j && b < j {
                        assert(order_of(before[a], before[b]) <= 0);
                    } else if a < j && b == j {
                        assert(order_of(before[a], cand) <= 0);
                    } else if a < j {
                        assert(order_of(before[a], before[b - 1]) <= 0);
                    } else if a == j {
                        assert(order_of(before[j as int], cand) > 0);
                        lemma_order_is_preorder(cand, before[j as int], before[b - 1]);
                        if b - 1 > j {
                            assert(order_of(before[j as int], before[b - 1]) <= 0);
                        }
                    } else {
                        assert(order_of(before[a - 1], before[b - 1]) <= 0);
                    }
                }
            }
            proof {
                let next = ranking_upto(strs, query@, case_matching, match_paths, (n + 1) as nat);
                assert(next == order.insert(j as int, n as int));
                assert forall|k: int| 0 <= k < results.len() implies #[trigger] result_of(
                    results@[k],
                    strs,
                    query@,
                    case_matching,
                    match_paths,
                    next[k],
                ) by {
                    if k > j as int {
                        assert(results@[k] == before[k - 1]);
                        assert(result_of(before[k - 1], strs, query@, case_matching, match_paths, order[k - 1]));
                        assert(next[k] == order[k - 1]);
                    } else if k < j as int {
                        assert(results@[k] == before[k]);
                        assert(result_of(before[k], strs, query@, case_matching, match_paths, order[k]));
                        assert(next[k] == order[k]);
                    }
                }
                assert(results@.len() == next.len());
                assert(results_follow(results@, strs, query@, case_matching, match_paths, next));
            }
        } else {
            assert(ranking_upto(strs, query@, case_matching, match_paths, (n + 1) as nat) == order);
        }
        n = n + 1;
    }
    proof {
        let order = ranking(strs, query@, case_matching, match_paths);
        lemma_ranking_holds_matches(strs, query@, case_matching, match_paths, strs.len());
        assert forall|i: int|
            0 <= i < entries@.len() && fuzzy_match(
                query@,
                entries@[i].string@,
                case_matching,
                match_paths,
            ) is Some implies #[trigger] lists_entry(results@, i) by {
            assert(strs[i] == entries@[i].string@);
            assert(order.contains(i));
            let k = choose|k: int| 0 <= k < order.len() && order[k] == i;
            assert(result_of(results@[k], strs, query@, case_matching, match_paths, order[k]));
        }
        if query@.len() == 0 {
            assert forall|i: int| 0 <= i < entries@.len() implies #[trigger] lists_entry(results@, i) by {
                assert(strs[i] == entries@[i].string@);
                assert(fuzzy_match(query@, strs[i], case_matching, match_paths) is Some);
            }
            lemma_ranking_all_match(strs, query@, case_matching, match_paths, strs.len());
            assert forall|k: int| 0 <= k < results@.len() implies #[trigger] unscored(results@[k]) by {
                assert(result_of(results@[k], strs, query@, case_matching, match_paths, order[k]));
                assert(fuzzy_match(query@, strs[order[k]], case_matching, match_paths) == Some(
                    (0u32, Seq::<u32>::empty()),
                ));
            }
        }
    }
    results
}

} // verus!
