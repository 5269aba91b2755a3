//! Character-level recognizers shared by the diagram parsers.
//!
//! Every recognizer works on the input's characters `s` between a position `p` and an exclusive
//! bound `end`, and is described by a spec function over `s@`.
use vstd::prelude::*;

verus! {

/// Whitespace between tokens: space, tab, line feed, carriage return and form feed.
pub open spec fn is_ws(c: char) -> bool {
    c == ' ' || c == '\t' || c == '\n' || c == '\r' || c == '\x0C'
}

/// An ASCII letter or digit, the characters of an identifier.
pub open spec fn is_alnum(c: char) -> bool {
    ('a' as u32 <= c as u32 && c as u32 <= 'z' as u32) || ('A' as u32 <= c as u32 && c as u32
        <= 'Z' as u32) || ('0' as u32 <= c as u32 && c as u32 <= '9' as u32)
}

/// An ASCII decimal digit.
pub open spec fn is_digit(c: char) -> bool {
    '0' as u32 <= c as u32 && c as u32 <= '9' as u32
}

/// The first position at or after `p` that is `end` or holds a character other than whitespace.
pub open spec fn ws_end(s: Seq<char>, p: int, end: int) -> int
    decreases end - p,
{
    if p < end && is_ws(s[p]) {
        ws_end(s, p + 1, end)
    } else {
        p
    }
}

/// The end of the run of identifier characters that starts at `p`.
pub open spec fn alnum_end(s: Seq<char>, p: int, end: int) -> int
    decreases end - p,
{
    if p < end && is_alnum(s[p]) {
        alnum_end(s, p + 1, end)
    } else {
        p
    }
}

/// The end of the run of digits that starts at `p`.
pub open spec fn digits_end(s: Seq<char>, p: int, end: int) -> int
    decreases end - p,
{
    if p < end && is_digit(s[p]) {
        digits_end(s, p + 1, end)
    } else {
        p
    }
}

/// A run of digits ends between its start and the bound.
pub proof fn lemma_digits_end_bounds(s: Seq<char>, p: int, end: int)
    requires
        p <= end,
    ensures
        p <= digits_end(s, p, end) <= end,
    decreases end - p,
{
    if p < end && is_digit(s[p]) {
        lemma_digits_end_bounds(s, p + 1, end);
    }
}

/// The end of the run of copies of `c` that starts at `p`.
pub open spec fn run_end(s: Seq<char>, p: int, end: int, c: char) -> int
    decreases end - p,
{
    if p < end && s[p] == c {
        run_end(s, p + 1, end, c)
    } else {
        p
    }
}

/// The first position at or after `p` that holds `c`, or `end` if there is none before it.
pub open spec fn find_from(s: Seq<char>, p: int, end: int, c: char) -> int
    decreases end - p,
{
    if p < end && s[p] != c {
        find_from(s, p + 1, end, c)
    } else {
        p
    }
}

/// `lit` stands in `s` at `p`, wholly before `end`.
pub open spec fn lit_at(s: Seq<char>, p: int, end: int, lit: Seq<char>) -> bool {
    0 <= p && p + lit.len() <= end && s.subrange(p, p + lit.len()) == lit
}

/// The end of `s[lo..hi]` once trailing whitespace is dropped.
pub open spec fn ws_back(s: Seq<char>, lo: int, hi: int) -> int
    decreases hi - lo,
{
    if lo < hi && is_ws(s[hi - 1]) {
        ws_back(s, lo, hi - 1)
    } else {
        hi
    }
}

/// The number of bytes that `c` takes in UTF-8.
pub open spec fn utf8_width(c: char) -> int {
    if (c as u32) < 0x80 {
        1
    } else if (c as u32) < 0x800 {
        2
    } else if (c as u32) < 0x10000 {
        3
    } else {
        4
    }
}

/// The 1-indexed line of position `p`: one more than the line feeds before it.
pub open spec fn line_at(s: Seq<char>, p: int) -> int
    decreases p,
{
    if p <= 0 {
        1
    } else {
        line_at(s, p - 1) + if s[p - 1] == '\n' {
            1int
        } else {
            0int
        }
    }
}

/// The 1-indexed column of position `p`: one more than the bytes since the last line feed.
pub open spec fn col_at(s: Seq<char>, p: int) -> int
    decreases p,
{
    if p <= 0 {
        1
    } else if s[p - 1] == '\n' {
        1
    } else {
        col_at(s, p - 1) + utf8_width(s[p - 1])
    }
}

/// The 0-indexed byte offset of position `p` in the UTF-8 encoding of `s`.
pub open spec fn offset_at(s: Seq<char>, p: int) -> int
    decreases p,
{
    if p <= 0 {
        0
    } else {
        offset_at(s, p - 1) + utf8_width(s[p - 1])
    }
}

pub fn is_space(c: char) -> (r: bool)
    ensures
        r == is_ws(c),
{
    c == ' ' || c == '\t' || c == '\n' || c == '\r' || c == '\x0C'
}

pub fn is_ident_char(c: char) -> (r: bool)
    ensures
        r == is_alnum(c),
{
    let u = c as u32;
    ('a' as u32 <= u && u <= 'z' as u32) || ('A' as u32 <= u && u <= 'Z' as u32) || ('0' as u32
        <= u && u <= '9' as u32)
}

pub fn is_digit_char(c: char) -> (r: bool)
    ensures
        r == is_digit(c),
{
    let u = c as u32;
    '0' as u32 <= u && u <= '9' as u32
}

/// The characters of `input`, in order.
pub fn chars_of(input: &str) -> (v: Vec<char>)
    ensures
        v@ == input@,
{
    let mut v: Vec<char> = Vec::new();
    for c in it: input.chars()
        invariant
            v@ == it.seq().take(it.index() as int),
    {
        v.push(c);
    }
    v
}

/// The text of `input` between character positions `a` and `b`.
pub fn text_of(input: &str, a: usize, b: usize) -> (r: String)
    requires
        a <= b <= input@.len(),
    ensures
        r@ == input@.subrange(a as int, b as int),
{
    input.substring_char(a, b).to_owned()
}

pub fn skip_ws(s: &Vec<char>, p: usize, end: usize) -> (q: usize)
    requires
        p <= end <= s@.len(),
    ensures
        q == ws_end(s@, p as int, end as int),
        p <= q <= end,
{
    let mut q = p;
    while q < end && is_space(s[q])
        invariant
            p <= q <= end <= s@.len(),
            ws_end(s@, q as int, end as int) == ws_end(s@, p as int, end as int),
        decreases end - q,
    {
        q = q + 1;
    }
    q
}

pub fn skip_alnum(s: &Vec<char>, p: usize, end: usize) -> (q: usize)
    requires
        p <= end <= s@.len(),
    ensures
        q == alnum_end(s@, p as int, end as int),
        p <= q <= end,
{
    let mut q = p;
    while q < end && is_ident_char(s[q])
        invariant
            p <= q <= end <= s@.len(),
            alnum_end(s@, q as int, end as int) == alnum_end(s@, p as int, end as int),
        decreases end - q,
    {
        q = q + 1;
    }
    q
}

pub fn skip_digits(s: &Vec<char>, p: usize, end: usize) -> (q: usize)
    requires
        p <= end <= s@.len(),
    ensures
        q == digits_end(s@, p as int, end as int),
        p <= q <= end,
{
    let mut q = p;
    while q < end && is_digit_char(s[q])
        invariant
            p <= q <= end <= s@.len(),
            digits_end(s@, q as int, end as int) == digits_end(s@, p as int, end as int),
        decreases end - q,
    {
        q = q + 1;
    }
    q
}

/// Counts the copies of `c` that stand in a row from `p`.
pub fn skip_run(s: &Vec<char>, p: usize, end: usize, c: char) -> (q: usize)
    requires
        p <= end <= s@.len(),
    ensures
        q == run_end(s@, p as int, end as int, c),
        p <= q <= end,
{
    let mut q = p;
    while q < end && s[q] == c
        invariant
            p <= q <= end <= s@.len(),
            run_end(s@, q as int, end as int, c) == run_end(s@, p as int, end as int, c),
        decreases end - q,
    {
        q = q + 1;
    }
    q
}

pub fn find_char(s: &Vec<char>, p: usize, end: usize, c: char) -> (q: usize)
    requires
        p <= end <= s@.len(),
    ensures
        q == find_from(s@, p as int, end as int, c),
        p <= q <= end,
{
    let mut q = p;
    while q < end && s[q] != c
        invariant
            p <= q <= end <= s@.len(),
            find_from(s@, q as int, end as int, c) == find_from(s@, p as int, end as int, c),
        decreases end - q,
    {
        q = q + 1;
    }
    q
}

/// Whether `lit` stands in `s` at `p`, wholly before `end`.
pub fn lit_here(s: &Vec<char>, p: usize, end: usize, lit: &str) -> (r: bool)
    requires
        p <= end <= s@.len(),
    ensures
        r == lit_at(s@, p as int, end as int, lit@),
{
    let n = lit.unicode_len();
    if n > end - p {
        return false;
    }
    let mut i: usize = 0;
    while i < n
        invariant
            i <= n == lit@.len(),
            p + n <= end <= s@.len(),
            forall|j: int| 0 <= j < i ==> s@[p + j] == lit@[j],
        decreases n - i,
    {
        if s[p + i] != lit.get_char(i) {
            assert(s@.subrange(p as int, p + n)[i as int] != lit@[i as int]);
            return false;
        }
        i = i + 1;
    }
    assert(s@.subrange(p as int, p + n) =~= lit@);
    true
}

/// The line, column and byte offset of position `p` in `s`.
pub fn locate(s: &Vec<char>, p: usize) -> (r: (u32, usize, usize))
    requires
        p <= s@.len() <= crate::MAX_INPUT_CHARS,
    ensures
        r.0 == line_at(s@, p as int),
        r.1 == col_at(s@, p as int),
        r.2 == offset_at(s@, p as int),
{
    let mut line: u32 = 1;
    let mut col: usize = 1;
    let mut offset: usize = 0;
    let mut i: usize = 0;
    while i < p
        invariant
            i <= p <= s@.len() <= crate::MAX_INPUT_CHARS,
            line == line_at(s@, i as int),
            col == col_at(s@, i as int),
            offset == offset_at(s@, i as int),
            line <= i + 1,
            col <= 4 * i + 1,
            offset <= 4 * i,
        decreases p - i,
    {
        let c = s[i];
        let w = char_width(c);
        if c == '\n' {
            line = line + 1;
            col = 1;
        } else {
            col = col + w;
        }
        offset = offset + w;
        i = i + 1;
    }
    (line, col, offset)
}

fn char_width(c: char) -> (w: usize)
    ensures
        w == utf8_width(c),
{
    let u = c as u32;
    if u < 0x80 {
        1
    } else if u < 0x800 {
        2
    } else if u < 0x10000 {
        3
    } else {
        4
    }
}

/// The bounds of `s[lo..hi]` without leading and trailing whitespace.
pub fn trim_range(s: &Vec<char>, lo: usize, hi: usize) -> (r: (usize, usize))
    requires
        lo <= hi <= s@.len(),
    ensures
        r.0 == ws_end(s@, lo as int, hi as int),
        r.1 == ws_back(s@, r.0 as int, hi as int),
        lo <= r.0 <= r.1 <= hi,
{
    let a = skip_ws(s, lo, hi);
    let mut b = hi;
    while a < b && is_space_at(s, b - 1)
        invariant
            lo <= a <= b <= hi <= s@.len(),
            a == ws_end(s@, lo as int, hi as int),
            ws_back(s@, a as int, b as int) == ws_back(s@, a as int, hi as int),
        decreases b - a,
    {
        b = b - 1;
    }
    (a, b)
}

fn is_space_at(s: &Vec<char>, i: usize) -> (r: bool)
    requires
        i < s@.len(),
    ensures
        r == is_ws(s@[i as int]),
{
    is_space(s[i])
}

} // verus!
