//! The theme file format: each non-blank line holds a key and a value,
//! separated by a colon; `//` starts a comment that runs to the end of the
//! line.
//!
//! Positions below index the characters of the whole text; a range is given
//! by its first position and the position after its last.

use vstd::prelude::*;
use vstd::string::StrSliceExecFns;

verus! {

/// The kinds of value a theme can hold.
#[derive(Debug, Clone, Copy, PartialEq, Eq, Structural)]
pub enum ValueKind {
    Color,
    Float,
}

/// A line of a theme that is not a key and a value separated by one colon;
/// it holds the line, without its comment.
#[derive(Debug, Clone, PartialEq, Eq)]
pub struct ParseThemeLineError(pub String);

/// Unicode white space, as `char::is_whitespace` has it.
pub open spec fn is_white(c: char) -> bool {
    ('\u{9}' <= c && c <= '\u{d}') || c == ' ' || c == '\u{85}' || c == '\u{a0}' || c == '\u{1680}'
        || ('\u{2000}' <= c && c <= '\u{200a}') || c == '\u{2028}' || c == '\u{2029}' || c
        == '\u{202f}' || c == '\u{205f}' || c == '\u{3000}'
}

/// The first position from `i` on, before `end`, that holds `c`; `end` if
/// there is none.
pub open spec fn find_in(t: Seq<char>, c: char, i: int, end: int) -> int
    decreases end - i,
{
    if i >= end {
        end
    } else if t[i] == c {
        i
    } else {
        find_in(t, c, i + 1, end)
    }
}

/// Where the line starting at `i` ends: the position of the next newline,
/// or the end of the text.
pub open spec fn line_end(t: Seq<char>, i: int) -> int {
    find_in(t, '\n', i, t.len() as int)
}

/// Where the content of the line starting at `i` ends: a carriage return
/// just before its newline is not part of it.
pub open spec fn content_end(t: Seq<char>, i: int) -> int {
    let e = line_end(t, i);
    if e < t.len() && e > i && t[e - 1] == '\r' {
        e - 1
    } else {
        e
    }
}

/// Where the comment in the range from `k` to `end` starts: the first `//`,
/// or `end`.
pub open spec fn comment_from(t: Seq<char>, k: int, end: int) -> int
    decreases end - k,
{
    if k + 1 >= end {
        end
    } else if t[k] == '/' && t[k + 1] == '/' {
        k
    } else {
        comment_from(t, k + 1, end)
    }
}

/// The first position of the range that is not white space, or its end.
pub open spec fn trim_lo(t: Seq<char>, a: int, b: int) -> int
    decreases b - a,
{
    if a >= b {
        b
    } else if is_white(t[a]) {
        trim_lo(t, a + 1, b)
    } else {
        a
    }
}

/// The position after the last position of the range that is not white
/// space, or its start.
pub open spec fn trim_hi(t: Seq<char>, a: int, b: int) -> int
    decreases b - a,
{
    if b <= a {
        a
    } else if is_white(t[b - 1]) {
        trim_hi(t, a, b - 1)
    } else {
        b
    }
}

/// The characters of the range without white space at either end.
pub open spec fn trimmed(t: Seq<char>, a: int, b: int) -> Seq<char> {
    t.subrange(trim_lo(t, a, b), trim_hi(t, trim_lo(t, a, b), b))
}

/// The item of a line whose content, without its comment, runs from `a` to
/// `c`: the key and the value around its one colon, trimmed, or the line
/// itself when it does not hold exactly one colon.
pub open spec fn line_item(t: Seq<char>, a: int, c: int) -> Result<(Seq<char>, Seq<char>), Seq<char>> {
    let p = find_in(t, ':', a, c);
    if p < c && find_in(t, ':', p + 1, c) == c {
        Ok((trimmed(t, a, p), trimmed(t, p + 1, c)))
    } else {
        Err(t.subrange(a, c))
    }
}

/// The items of the lines from position `i` on; lines that are blank once
/// their comment is removed have none.
pub open spec fn items_from(t: Seq<char>, i: int) -> Seq<Result<(Seq<char>, Seq<char>), Seq<char>>>
    decreases t.len() - i,
{
    if i < 0 || i >= t.len() {
        Seq::empty()
    } else {
        let e = line_end(t, i);
        let c = comment_from(t, i, content_end(t, i));
        let rest = if i <= e < t.len() {
            items_from(t, e + 1)
        } else {
            Seq::empty()
        };
        if trim_lo(t, i, c) == c {
            rest
        } else {
            seq![line_item(t, i, c)] + rest
        }
    }
}

/// An item as plain values.
pub open spec fn item_view(r: Result<(&str, &str), ParseThemeLineError>) -> Result<(Seq<char>, Seq<char>), Seq<char>> {
    match r {
        Ok((k, v)) => Ok((k@, v@)),
        Err(e) => Err(e.0@),
    }
}

proof fn lemma_find_in_bounds(t: Seq<char>, c: char, i: int, end: int)
    requires
        i <= end,
    ensures
        i <= find_in(t, c, i, end) <= end,
    decreases end - i,
{
    if i < end && t[i] != c {
        lemma_find_in_bounds(t, c, i + 1, end);
    }
}

proof fn lemma_comment_bounds(t: Seq<char>, k: int, end: int)
    requires
        k <= end,
    ensures
        k <= comment_from(t, k, end) <= end,
    decreases end - k,
{
    if k + 1 < end && !(t[k] == '/' && t[k + 1] == '/') {
        lemma_comment_bounds(t, k + 1, end);
    }
}

proof fn lemma_trim_lo_bounds(t: Seq<char>, a: int, b: int)
    requires
        a <= b,
    ensures
        a <= trim_lo(t, a, b) <= b,
    decreases b - a,
{
    if a < b && is_white(t[a]) {
        lemma_trim_lo_bounds(t, a + 1, b);
    }
}

proof fn lemma_trim_hi_bounds(t: Seq<char>, a: int, b: int)
    requires
        a <= b,
    ensures
        a <= trim_hi(t, a, b) <= b,
    decreases b - a,
{
    if a < b && is_white(t[b - 1]) {
        lemma_trim_hi_bounds(t, a, b - 1);
    }
}

/// The characters of a text, in order.
pub(crate) fn text_chars(s: &str) -> (r: Vec<char>)
    ensures
        r@ == s@,
{
    let n = s.unicode_len();
    let mut out: Vec<char> = Vec::new();
    let mut i: usize = 0;
    while i < n
        invariant
            n == s@.len(),
            0 <= i <= n,
            out@ == s@.take(i as int),
        decreases n - i,
    {
        out.push(s.get_char(i));
        assert(out@ =~= s@.take(i + 1));
        i += 1;
    }
    assert(s@.take(n as int) =~= s@);
    out
}

/// `find_in` over a vector.
pub(crate) fn find_char(t: &Vec<char>, c: char, i: usize, end: usize) -> (r: usize)
    requires
        i <= end <= t.len(),
    ensures
        r == find_in(t@, c, i as int, end as int),
{
    let mut k = i;
    while k < end && t[k] != c
        invariant
            i <= k <= end <= t.len(),
            find_in(t@, c, i as int, end as int) == find_in(t@, c, k as int, end as int),
        decreases end - k,
    {
        k += 1;
    }
    k
}

/// `comment_from` over a vector.
fn find_comment(t: &Vec<char>, k: usize, end: usize) -> (r: usize)
    requires
        k <= end <= t.len(),
    ensures
        r == comment_from(t@, k as int, end as int),
{
    let mut j = k;
    while j < end && end - j > 1 && !(t[j] == '/' && t[j + 1] == '/')
        invariant
            k <= j <= end <= t.len(),
            comment_from(t@, k as int, end as int) == comment_from(t@, j as int, end as int),
        decreases end - j,
    {
        j += 1;
    }
    if j >= end || end - j <= 1 {
        end
    } else {
        j
    }
}

fn white(c: char) -> (r: bool)
    ensures
        r == is_white(c),
{
    ('\u{9}' <= c && c <= '\u{d}') || c == ' ' || c == '\u{85}' || c == '\u{a0}' || c == '\u{1680}'
        || ('\u{2000}' <= c && c <= '\u{200a}') || c == '\u{2028}' || c == '\u{2029}' || c
        == '\u{202f}' || c == '\u{205f}' || c == '\u{3000}'
}

/// The range without white space at either end.
fn trim_range(t: &Vec<char>, a: usize, b: usize) -> (r: (usize, usize))
    requires
        a <= b <= t.len(),
    ensures
        r.0 == trim_lo(t@, a as int, b as int),
        r.1 == trim_hi(t@, r.0 as int, b as int),
        a <= r.0 <= r.1 <= b,
{
    let mut lo = a;
    while lo < b && white(t[lo])
        invariant
            a <= lo <= b <= t.len(),
            trim_lo(t@, a as int, b as int) == trim_lo(t@, lo as int, b as int),
        decreases b - lo,
    {
        lo += 1;
    }
    let mut hi = b;
    while hi > lo && white(t[hi - 1])
        invariant
            lo <= hi <= b <= t.len(),
            trim_hi(t@, lo as int, b as int) == trim_hi(t@, lo as int, hi as int),
        decreases hi - lo,
    {
        hi -= 1;
    }
    (lo, hi)
}

/// The item of the line whose content, without its comment, runs from `a`
/// to `c`.
fn parse_line<'a>(s: &'a str, t: &Vec<char>, a: usize, c: usize) -> (r: Result<(&'a str, &'a str), ParseThemeLineError>)
    requires
        t@ == s@,
        a <= c <= t.len(),
    ensures
        item_view(r) == line_item(s@, a as int, c as int),
{
    let p = find_char(t, ':', a, c);
    proof {
        lemma_find_in_bounds(t@, ':', a as int, c as int);
    }
    if p < c && find_char(t, ':', p + 1, c) == c {
        let (klo, khi) = trim_range(t, a, p);
        let (vlo, vhi) = trim_range(t, p + 1, c);
        let key = s.substring_char(klo, khi);
        let val = s.substring_char(vlo, vhi);
        Ok((key, val))
    } else {
        let line = s.substring_char(a, c).to_owned();
        Err(ParseThemeLineError(line))
    }
}

/// Given a text in the theme format, its items in order: for each line that
/// is not blank once its comment is removed, the trimmed key and value, or
/// an error holding the line.
pub fn iter_items(s: &str) -> (r: Vec<Result<(&str, &str), ParseThemeLineError>>)
    ensures
        r@.map_values(|x: Result<(&str, &str), ParseThemeLineError>| item_view(x)) == items_from(s@, 0),
{
    let t = text_chars(s);
    let n = t.len();
    let mut out: Vec<Result<(&str, &str), ParseThemeLineError>> = Vec::new();
    let mut i: usize = 0;
    while i < n
        invariant
            t@ == s@,
            n == t.len(),
            0 <= i <= n,
            items_from(s@, 0) == out@.map_values(|x: Result<(&str, &str), ParseThemeLineError>| item_view(x))
                + items_from(s@, i as int),
        decreases n - i,
    {
        let e = find_char(&t, '\n', i, n);
        proof {
            lemma_find_in_bounds(t@, '\n', i as int, n as int);
        }
        let b = if e < n && e > i && t[e - 1] == '\r' {
            e - 1
        } else {
            e
        };
        let c = find_comment(&t, i, b);
        proof {
            lemma_comment_bounds(t@, i as int, b as int);
        }
        let (lo, _hi) = trim_range(&t, i, c);
        let ghost before = out@.map_values(|x: Result<(&str, &str), ParseThemeLineError>| item_view(x));
        if lo != c {
            let item = parse_line(s, &t, i, c);
            out.push(item);
            assert(out@.map_values(|x: Result<(&str, &str), ParseThemeLineError>| item_view(x)) =~= before.push(
                item_view(item),
            ));
        }
        if e < n {
            assert(items_from(s@, 0) == out@.map_values(|x: Result<(&str, &str), ParseThemeLineError>| item_view(x))
                + items_from(s@, e + 1));
            i = e + 1;
        } else {
            assert(items_from(s@, 0) == out@.map_values(|x: Result<(&str, &str), ParseThemeLineError>| item_view(x))
                + items_from(s@, n as int));
            i = n;
        }
    }
    assert(items_from(s@, i as int) == Seq::<Result<(Seq<char>, Seq<char>), Seq<char>>>::empty());
    assert(out@.map_values(|x: Result<(&str, &str), ParseThemeLineError>| item_view(x)) + Seq::<
        Result<(Seq<char>, Seq<char>), Seq<char>>,
    >::empty() =~= out@.map_values(|x: Result<(&str, &str), ParseThemeLineError>| item_view(x)));
    out
}

} // verus!
