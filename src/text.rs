//! Text primitives: character widths, terminal colours and string edits.
use owo_colors::OwoColorize;
use unicode_width::UnicodeWidthChar;
use vstd::prelude::*;
use vstd::string::*;

verus! {

/// The display width in terminal columns that unicode-width gives a
/// character: `None` for a control character.
pub uninterp spec fn display_width(c: char) -> Option<usize>;

/// Relies on unicode_width's `UnicodeWidthChar::width`.
#[verifier::external_body]
pub(crate) fn char_width(c: char) -> (r: Option<usize>)
    ensures
        r == display_width(c),
{
    c.width()
}

/// The escape sequence that sets the foreground or background colour with
/// the given SGR code (two digits, or three for a bright background).
pub open spec fn sgr(code: Seq<char>) -> Seq<char> {
    seq!['\x1b', '['] + code + seq!['m']
}

/// `s` wrapped in an escape sequence that sets the foreground colour with the
/// given code, and one that restores the default foreground colour.
pub open spec fn fg_painted(code: Seq<char>, s: Seq<char>) -> Seq<char> {
    sgr(code) + s + sgr(seq!['3', '9'])
}

/// `s` wrapped in an escape sequence that sets the background colour with the
/// given code, and one that restores the default background colour.
pub open spec fn bg_painted(code: Seq<char>, s: Seq<char>) -> Seq<char> {
    sgr(code) + s + sgr(seq!['4', '9'])
}

/// Relies on owo_colors' `fg::<BrightBlack>` and its `Display`: SGR code 90.
#[verifier::external_body]
pub(crate) fn fg_bright_black(s: &str) -> (r: String)
    ensures
        r@ == fg_painted(seq!['9', '0'], s@),
{
    s.fg::<owo_colors::colors::BrightBlack>().to_string()
}

/// Relies on owo_colors' `fg::<Yellow>` and its `Display`: SGR code 33.
#[verifier::external_body]
pub(crate) fn fg_yellow(s: &str) -> (r: String)
    ensures
        r@ == fg_painted(seq!['3', '3'], s@),
{
    s.fg::<owo_colors::colors::Yellow>().to_string()
}

/// Relies on owo_colors' `fg::<Cyan>` and its `Display`: SGR code 36.
#[verifier::external_body]
pub(crate) fn fg_cyan(s: &str) -> (r: String)
    ensures
        r@ == fg_painted(seq!['3', '6'], s@),
{
    s.fg::<owo_colors::colors::Cyan>().to_string()
}

/// Relies on owo_colors' `bg::<Green>` and its `Display`: SGR code 42.
#[verifier::external_body]
pub(crate) fn bg_green(s: &str) -> (r: String)
    ensures
        r@ == bg_painted(seq!['4', '2'], s@),
{
    s.bg::<owo_colors::colors::Green>().to_string()
}

/// Relies on std's `String::push`: appends one character.
#[verifier::external_body]
pub(crate) fn push_char(s: &mut String, c: char)
    ensures
        final(s)@ == old(s)@.push(c),
{
    s.push(c)
}

/// Relies on std's `String::pop`: removes the last character, if any.
#[verifier::external_body]
pub(crate) fn pop_char(s: &mut String) -> (r: Option<char>)
    ensures
        old(s)@.len() == 0 ==> r is None && final(s)@ == old(s)@,
        old(s)@.len() > 0 ==> r == Some(old(s)@.last()) && final(s)@ == old(s)@.drop_last(),
{
    s.pop()
}

/// Empties a string.
pub(crate) fn clear_string(s: &mut String)
    ensures
        final(s)@ == Seq::<char>::empty(),
{
    *s = String::new();
}

/// The characters of `s` in order.
pub(crate) fn chars_of(s: &str) -> (r: Vec<char>)
    ensures
        r@ == s@,
{
    let n = s.unicode_len();
    let mut r: Vec<char> = Vec::with_capacity(n);
    let mut i: usize = 0;
    while i < n
        invariant
            i <= n,
            n == s@.len(),
            r@ == s@.subrange(0, i as int),
        decreases n - i,
    {
        r.push(s.get_char(i));
        i = i + 1;
        assert(r@ =~= s@.subrange(0, i as int));
    }
    assert(s@.subrange(0, n as int) =~= s@);
    r
}

/// Relies on std's `char::to_string`: the one-character string.
#[verifier::external_body]
pub(crate) fn char_string(c: char) -> (r: String)
    ensures
        r@ == seq![c],
{
    c.to_string()
}

} // verus!
