//! The viewport renderer: the page of results that fits in the frame, with
//! long strings cut short and matched characters highlighted.
use crate::keys::InputMode;
use crate::ranking::SearchResult;
use crate::text::{
    bg_green, bg_painted, char_string, char_width, display_width, fg_bright_black, fg_cyan,
    fg_painted, fg_yellow,
};
use vstd::arithmetic::div_mod::lemma_fundamental_div_mod;
use vstd::prelude::*;
use vstd::string::*;

verus! {

/// Columns that a character takes; a control character takes none.
pub open spec fn width_of(c: char) -> nat {
    match display_width(c) {
        Some(w) => w as nat,
        None => 0,
    }
}

/// Columns that the first `n` characters take.
pub open spec fn prefix_width(chars: Seq<char>, n: nat) -> nat
    decreases n,
{
    if n == 0 || n > chars.len() {
        0
    } else {
        prefix_width(chars, (n - 1) as nat) + width_of(chars[n - 1])
    }
}

/// Whether the first `n` characters fit on a row of `cols` columns, after
/// the two-column margin and with room left for the ellipsis.
pub open spec fn fits(chars: Seq<char>, n: nat, cols: int) -> bool {
    2 + prefix_width(chars, n) + 6 <= cols
}

/// How many characters are shown, counting from position `k`: up to the
/// first whose end would not fit.
pub open spec fn shown_from(chars: Seq<char>, cols: int, k: nat) -> nat
    decreases chars.len() - k,
{
    if k >= chars.len() {
        chars.len()
    } else if !fits(chars, k + 1, cols) {
        k
    } else {
        shown_from(chars, cols, k + 1)
    }
}

/// How many characters of a string are shown on a row of `cols` columns.
pub open spec fn shown(chars: Seq<char>, cols: int) -> nat {
    shown_from(chars, cols, 0)
}

/// The first result on the page that holds `selected`, and the selection's
/// row on that page.
pub open spec fn page_of(selected: int, page_size: int) -> (int, int) {
    ((selected / page_size) * page_size, selected % page_size)
}

/// Whether the character at position `k` was matched.
pub open spec fn is_matched(indices: Seq<u32>, k: int) -> bool {
    exists|i: int| 0 <= i < indices.len() && indices[i] as int == k
}

/// One character of a row: matched characters in cyan, the others of the
/// selected row in yellow, the rest plain.
pub open spec fn cell(c: char, matched: bool, selected: bool) -> Seq<char> {
    if matched {
        fg_painted(seq!['3', '6'], seq![c])
    } else if selected {
        fg_painted(seq!['3', '3'], seq![c])
    } else {
        seq![c]
    }
}

/// The first `n` characters of a row, each as its `cell`.
pub open spec fn cells(chars: Seq<char>, indices: Seq<u32>, selected: bool, n: nat) -> Seq<char>
    decreases n,
{
    if n == 0 || n > chars.len() {
        Seq::empty()
    } else {
        cells(chars, indices, selected, (n - 1) as nat) + cell(
            chars[n - 1],
            is_matched(indices, n - 1),
            selected,
        )
    }
}

/// The ellipsis that ends a string cut short.
pub open spec fn ellipsis() -> Seq<char> {
    fg_painted(seq!['9', '0'], " [...]"@)
}

/// The two-column margin of a row: the selection marker, or blanks.
pub open spec fn margin(selected: bool) -> Seq<char> {
    if selected {
        fg_painted(seq!['3', '3'], ">"@) + " "@
    } else {
        "  "@
    }
}

/// One row of the viewport: the selection marker or a blank margin, the
/// characters that fit, and the ellipsis if some did not.
pub open spec fn row_text(chars: Seq<char>, indices: Seq<u32>, selected: bool, cols: int) -> Seq<char> {
    let n = shown(chars, cols);
    margin(selected) + cells(chars, indices, selected, n) + (if n < chars.len() {
        ellipsis()
    } else {
        Seq::empty()
    })
}

/// The query line: a hint when the query is empty in normal mode, else the
/// query, followed in search mode by a cursor.
pub open spec fn query_line(query: Seq<char>, mode: InputMode) -> Seq<char> {
    "  "@ + if mode == InputMode::Normal && query.len() == 0 {
        fg_painted(seq!['9', '0'], "(press / to search)"@)
    } else if mode == InputMode::Search {
        query + bg_painted(seq!['4', '2'], " "@)
    } else {
        query
    }
}

/// The rows of the results `start .. start + count`, separated by newlines,
/// the one at `local` marked selected.
pub open spec fn rows_text(results: Seq<SearchResult>, start: int, count: nat, local: int, cols: int) -> Seq<char>
    decreases count,
{
    if count == 0 {
        Seq::empty()
    } else {
        let k = count - 1;
        let r = results[start + k];
        let row = row_text(r.chars@, r.indices@, k == local, cols);
        if count == 1 {
            row
        } else {
            rows_text(results, start, (count - 1) as nat, local, cols) + "\n"@ + row
        }
    }
}

/// How many results the page starting at `start` shows.
pub open spec fn page_count(len: int, start: int, page_size: int) -> nat {
    if start >= len {
        0
    } else if len - start < page_size {
        (len - start) as nat
    } else {
        page_size as nat
    }
}

/// The whole frame for `rows` rows of `cols` columns: nothing when there are
/// no rows; else the query line, a newline, and the rows of the page of
/// results that holds the selection (no results when there is a single row).
pub open spec fn frame_text(
    results: Seq<SearchResult>,
    selected: int,
    query: Seq<char>,
    mode: InputMode,
    rows: int,
    cols: int,
) -> Seq<char> {
    if rows <= 0 {
        Seq::empty()
    } else if rows == 1 {
        query_line(query, mode) + "\n"@
    } else {
        let page_size = rows - 1;
        let (start, local) = page_of(selected, page_size);
        query_line(query, mode) + "\n"@ + rows_text(
            results,
            start,
            page_count(results.len() as int, start, page_size),
            local,
            cols,
        )
    }
}

/// What `shown_from` counts: a prefix that fits (or none), that stops only
/// where the next character would not fit.
proof fn lemma_shown_from(chars: Seq<char>, cols: int, k: nat)
    requires
        k <= chars.len(),
        k == 0 || fits(chars, k, cols),
    ensures
        k <= shown_from(chars, cols, k) <= chars.len(),
        shown_from(chars, cols, k) == 0 || fits(chars, shown_from(chars, cols, k), cols),
        shown_from(chars, cols, k) < chars.len() ==> !fits(
            chars,
            shown_from(chars, cols, k) + 1,
            cols,
        ),
    decreases chars.len() - k,
{
    if k < chars.len() && fits(chars, k + 1, cols) {
        lemma_shown_from(chars, cols, k + 1);
    }
}

/// Truncation: a non-empty string wider than the row leaves room for (the
/// margin, then `cols - 6` columns) is cut short, so its row ends with the
/// ellipsis, and what is shown of it fits in that room.
pub proof fn lemma_truncation(chars: Seq<char>, indices: Seq<u32>, selected: bool, cols: int)
    requires
        chars.len() > 0,
        prefix_width(chars, chars.len()) > cols - 6,
    ensures
        shown(chars, cols) < chars.len(),
        shown(chars, cols) == 0 || 2 + prefix_width(chars, shown(chars, cols)) <= cols - 6,
        row_text(chars, indices, selected, cols) == margin(selected) + cells(
            chars,
            indices,
            selected,
            shown(chars, cols),
        ) + ellipsis(),
{
    lemma_shown_from(chars, cols, 0);
}

/// No row overflows: on a row of at least 8 columns, the two-column margin,
/// the columns of the characters shown, and the six columns of the ellipsis
/// where the string is cut short take at most `cols` columns.
pub proof fn lemma_row_width(chars: Seq<char>, cols: int)
    requires
        cols >= 8,
    ensures
        2 + prefix_width(chars, shown(chars, cols)) + (if shown(chars, cols) < chars.len() {
            6int
        } else {
            0int
        }) <= cols,
{
    lemma_shown_from(chars, cols, 0);
}

/// Widths only grow along a string.
proof fn lemma_prefix_width_grows(chars: Seq<char>, a: nat, b: nat)
    requires
        a <= b <= chars.len(),
    ensures
        prefix_width(chars, a) <= prefix_width(chars, b),
    decreases b - a,
{
    if a < b {
        lemma_prefix_width_grows(chars, a, (b - 1) as nat);
    }
}

/// A string that fits in full is shown in full, without the ellipsis.
pub proof fn lemma_no_truncation(chars: Seq<char>, indices: Seq<u32>, selected: bool, cols: int)
    requires
        fits(chars, chars.len(), cols),
    ensures
        shown(chars, cols) == chars.len(),
        row_text(chars, indices, selected, cols) == margin(selected) + cells(
            chars,
            indices,
            selected,
            chars.len(),
        ),
{
    lemma_shown_from(chars, cols, 0);
    let n = shown(chars, cols);
    if n < chars.len() {
        lemma_prefix_width_grows(chars, n + 1, chars.len());
    }
    assert(row_text(chars, indices, selected, cols) =~= margin(selected) + cells(
        chars,
        indices,
        selected,
        chars.len(),
    ));
}

/// The first result on the page of size `page_size` that holds `selected`,
/// and the selection's row on that page.
pub fn page_window(selected: usize, page_size: usize) -> (r: (usize, usize))
    requires
        page_size > 0,
    ensures
        (r.0 as int, r.1 as int) == page_of(selected as int, page_size as int),
        r.0 <= selected,
        r.1 < page_size,
{
    proof {
        lemma_fundamental_div_mod(selected as int, page_size as int);
    }
    let local = selected % page_size;
    let start = selected - local;
    assert(start == (selected / page_size) * page_size) by (nonlinear_arith)
        requires
            selected as int == page_size * (selected as int / page_size as int) + (selected as int
                % page_size as int),
            start == selected - local,
            local == selected % page_size,
    ;
    (start, local)
}

/// Columns that a character takes; a control character takes none.
fn char_columns(c: char) -> (r: usize)
    ensures
        r as nat == width_of(c),
{
    match char_width(c) {
        Some(w) => w,
        None => 0,
    }
}

/// How many characters of `chars` are shown on a row of `cols` columns.
pub fn shown_count(chars: &Vec<char>, cols: usize) -> (r: usize)
    ensures
        r as nat == shown(chars@, cols as int),
        r <= chars@.len(),
{
    let mut k: usize = 0;
    if cols < 8 {
        proof {
            if chars@.len() > 0 {
                assert(!fits(chars@, 1, cols as int));
            }
        }
        return 0;
    }
    let limit = cols - 6;
    let mut col: usize = 2;
    while k < chars.len()
        invariant
            k <= chars@.len(),
            limit == cols - 6,
            col == 2 + prefix_width(chars@, k as nat),
            col <= limit,
            shown(chars@, cols as int) == shown_from(chars@, cols as int, k as nat),
        decreases chars.len() - k,
    {
        let w = char_columns(chars[k]);
        assert(prefix_width(chars@, (k + 1) as nat) == prefix_width(chars@, k as nat) + width_of(chars@[k as int]));
        if w > limit - col {
            return k;
        }
        col = col + w;
        k = k + 1;
    }
    k
}

/// Whether position `k` is among the matched positions.
fn contains_index(indices: &Vec<u32>, k: usize) -> (r: bool)
    ensures
        r == is_matched(indices@, k as int),
{
    let mut i: usize = 0;
    while i < indices.len()
        invariant
            i <= indices@.len(),
            forall|j: int| 0 <= j < i ==> indices@[j] as int != k as int,
        decreases indices.len() - i,
    {
        if indices[i] as usize == k {
            return true;
        }
        i = i + 1;
    }
    false
}

/// One row of the viewport for a result.
pub fn render_row(result: &SearchResult, selected: bool, cols: usize) -> (r: String)
    ensures
        r@ == row_text(result.chars@, result.indices@, selected, cols as int),
{
    let mut line = String::new();
    if selected {
        let marker = fg_yellow(">");
        line.append(marker.as_str());
        line.append(" ");
    } else {
        line.append("  ");
    }
    let ghost margin = line@;
    let n = shown_count(&result.chars, cols);
    let mut k: usize = 0;
    while k < n
        invariant
            k <= n,
            n as nat == shown(result.chars@, cols as int),
            n <= result.chars@.len(),
            line@ == margin + cells(result.chars@, result.indices@, selected, k as nat),
        decreases n - k,
    {
        let c = result.chars[k];
        let one = char_string(c);
        if contains_index(&result.indices, k) {
            let painted = fg_cyan(one.as_str());
            line.append(painted.as_str());
        } else if selected {
            let painted = fg_yellow(one.as_str());
            line.append(painted.as_str());
        } else {
            line.append(one.as_str());
        }
        k = k + 1;
        assert(line@ =~= margin + cells(result.chars@, result.indices@, selected, k as nat));
    }
    if n < result.chars.len() {
        let dots = fg_bright_black(" [...]");
        line.append(dots.as_str());
    }
    line
}

/// The query line.
fn render_query_line(query: &str, mode: InputMode) -> (r: String)
    ensures
        r@ == query_line(query@, mode),
{
    let mut line = String::new();
    line.append("  ");
    if mode == InputMode::Normal && query.unicode_len() == 0 {
        let hint = fg_bright_black("(press / to search)");
        line.append(hint.as_str());
    } else {
        line.append(query);
        if mode == InputMode::Search {
            let cursor = bg_green(" ");
            line.append(cursor.as_str());
        }
    }
    line
}

/// The frame for `rows` rows of `cols` columns: the query line, then the
/// page of results that holds the selection.
pub fn render_frame(
    results: &Vec<SearchResult>,
    selected: usize,
    query: &str,
    mode: InputMode,
    rows: usize,
    cols: usize,
) -> (r: String)
    ensures
        r@ == frame_text(results@, selected as int, query@, mode, rows as int, cols as int),
{
    let mut frame = String::new();
    if rows == 0 {
        return frame;
    }
    let header = render_query_line(query, mode);
    frame.append(header.as_str());
    frame.append("\n");
    if rows == 1 {
        return frame;
    }
    let page_size = rows - 1;
    let (start, local) = page_window(selected, page_size);
    let count: usize = if start >= results.len() {
        0
    } else if results.len() - start < page_size {
        results.len() - start
    } else {
        page_size
    };
    assert(count as nat == page_count(results@.len() as int, start as int, page_size as int));
    let ghost head = frame@;
    let mut k: usize = 0;
    while k < count
        invariant
            k <= count,
            count == 0 || start as int + count as int <= results@.len() as int,
            results@.len() <= usize::MAX,
            frame@ == head + rows_text(results@, start as int, k as nat, local as int, cols as int),
        decreases count - k,
    {
        let row = render_row(&results[start + k], k == local, cols);
        if k > 0 {
            frame.append("\n");
        }
        frame.append(row.as_str());
        k = k + 1;
        assert(frame@ =~= head + rows_text(results@, start as int, k as nat, local as int, cols as int));
    }
    assert(frame@ =~= frame_text(results@, selected as int, query@, mode, rows as int, cols as int));
    frame
}

} // verus!
