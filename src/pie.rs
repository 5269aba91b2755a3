//! Pie charts: a header (`pie`, an optional `showData` flag, an optional title) followed by one
//! or more data points of the form `"label": number`.
use vstd::prelude::*;

use crate::scan::{
    chars_of, col_at, digits_end, find_char, find_from, is_digit, is_ws, lemma_digits_end_bounds,
    line_at, lit_at, lit_here, locate, offset_at, skip_digits, skip_ws, text_of, trim_range,
    ws_back, ws_end,
};

verus! {

/// What went wrong while parsing a pie chart.
#[derive(Debug, Clone, Copy, PartialEq, Eq)]
pub enum ErrorKind {
    /// Expected a particular text at the failure point.
    ExpectedLiteral(&'static str),
    /// Expected a number at the failure point.
    ExpectedFloat,
    /// Found an opening quote but no closing quote before the end of the input.
    UnclosedQuote(&'static str),
    /// Searched for a particular text between the failure point and the end of the input, and
    /// found none.
    SearchLiteral(&'static str),
    /// Expected the end of the input, but found more.
    UnexpectedTrailing,
}

/// A failed pie chart parse: what went wrong, and where.
#[derive(Debug, Clone, Copy, PartialEq, Eq)]
pub struct Error {
    /// (1-indexed) line number of the error.
    pub line: u32,
    /// (1-indexed) column of the error, counted in bytes.
    pub col: usize,
    /// (0-indexed) byte offset of the error in the input.
    pub offset: usize,
    /// What went wrong.
    pub kind: ErrorKind,
}

impl Error {
    /// Get a description of the failure.
    pub fn kind(&self) -> (r: &ErrorKind)
        ensures
            *r == self.kind,
    {
        &self.kind
    }

    /// This error reports `kind` at character position `p` of `s`.
    pub open spec fn reports(&self, s: Seq<char>, kind: ErrorKind, p: int) -> bool {
        &&& self.kind == kind
        &&& self.line == line_at(s, p)
        &&& self.col == col_at(s, p)
        &&& self.offset == offset_at(s, p)
    }

    fn at(s: &Vec<char>, p: usize, kind: ErrorKind) -> (e: Error)
        requires
            p <= s@.len() <= crate::MAX_INPUT_CHARS,
        ensures
            e.reports(s@, kind, p as int),
    {
        let (line, col, offset) = locate(s, p);
        Error { line, col, offset, kind }
    }
}

/// A numeric data point of a pie chart.
#[derive(Debug, Clone)]
pub struct Datum {
    /// What to label this data point in the legend.
    pub label: String,
    /// The data value, as the decimal literal written in the source (optional sign, digits with
    /// an optional fraction, optional exponent). It reads as a floating point number with
    /// `str::parse::<f64>`.
    pub value: String,
}

/// A parsed pie chart.
#[derive(Debug, Clone)]
pub struct Pie {
    /// A title to display above the chart.
    ///
    /// If `Some("")` then space is left for a title, whereas if `None`, no space is taken.
    pub title: Option<String>,
    /// Whether to show the values of the data in the legend.
    pub show_data: bool,
    /// The data to chart, in source order.
    pub data: Vec<Datum>,
}

/// A data point as text: its label and its number literal.
pub type DatumView = (Seq<char>, Seq<char>);

/// The content of a pie chart.
pub struct PieView {
    pub title: Option<Seq<char>>,
    pub show_data: bool,
    pub data: Seq<DatumView>,
}

impl View for Datum {
    type V = DatumView;

    open spec fn view(&self) -> DatumView {
        (self.label@, self.value@)
    }
}

impl View for Pie {
    type V = PieView;

    open spec fn view(&self) -> PieView {
        PieView {
            title: match self.title {
                Some(t) => Some(t@),
                None => None,
            },
            show_data: self.show_data,
            data: self.data@.map_values(|d: Datum| d@),
        }
    }
}

/// A failure of the grammar: its kind and the character position it is reported at.
pub type Failure = (ErrorKind, int);

/// The end of the number literal at `p`: an optional sign, then digits with an optional
/// fraction (`1`, `1.`, `1.5`) or a fraction alone (`.5`), then an optional exponent (`e3`,
/// `E-3`). A mantissa that is missing fails at `p`; an exponent without digits fails where the
/// digits should be.
pub open spec fn float_end(s: Seq<char>, p: int, end: int) -> Result<int, int> {
    let a = if p < end && (s[p] == '+' || s[p] == '-') {
        p + 1
    } else {
        p
    };
    let d = digits_end(s, a, end);
    let b = if d > a {
        if d < end && s[d] == '.' {
            Some(digits_end(s, d + 1, end))
        } else {
            Some(d)
        }
    } else if a < end && s[a] == '.' && digits_end(s, a + 1, end) > a + 1 {
        Some(digits_end(s, a + 1, end))
    } else {
        None
    };
    match b {
        None => Err(p),
        Some(b) => if b < end && (s[b] == 'e' || s[b] == 'E') {
            let c = if b + 1 < end && (s[b + 1] == '+' || s[b + 1] == '-') {
                b + 2
            } else {
                b + 1
            };
            if digits_end(s, c, end) > c {
                Ok(digits_end(s, c, end))
            } else {
                Err(c)
            }
        } else {
            Ok(b)
        },
    }
}

/// One data point at `p`: a quoted label, `:`, a number, with whitespace allowed around the
/// colon. On success, the point and the position after its number.
pub open spec fn datum_at(s: Seq<char>, p: int, end: int) -> Result<(DatumView, int), Failure> {
    if !(p < end && s[p] == '"') {
        Err((ErrorKind::ExpectedLiteral("\""), p))
    } else {
        let q = find_from(s, p + 1, end, '"');
        if q >= end {
            Err((ErrorKind::UnclosedQuote("\""), p + 1))
        } else {
            let r = ws_end(s, q + 1, end);
            if !(r < end && s[r] == ':') {
                Err((ErrorKind::ExpectedLiteral(":"), r))
            } else {
                let t = ws_end(s, r + 1, end);
                match float_end(s, t, end) {
                    Err(e) => Err((ErrorKind::ExpectedFloat, e)),
                    Ok(u) => Ok(((s.subrange(p + 1, q), s.subrange(t, u)), u)),
                }
            }
        }
    }
}

/// The data points after the one that ends at `p`, up to the end of the input: each one after
/// whitespace, and nothing but whitespace after the last.
pub open spec fn more_data(s: Seq<char>, p: int, end: int) -> Result<Seq<DatumView>, Failure>
    decreases end - p,
{
    let r = ws_end(s, p, end);
    if r >= end {
        Ok(Seq::empty())
    } else if s[r] != '"' {
        Err((ErrorKind::UnexpectedTrailing, r))
    } else {
        match datum_at(s, r, end) {
            Err(f) => Err(f),
            Ok((d, u)) => if p < u <= end {
                match more_data(s, u, end) {
                    Err(f) => Err(f),
                    Ok(rest) => Ok(seq![d] + rest),
                }
            } else {
                Err((ErrorKind::UnexpectedTrailing, r))
            },
        }
    }
}

/// `s[lo..hi]` without leading and trailing whitespace.
pub open spec fn trimmed(s: Seq<char>, lo: int, hi: int) -> Seq<char> {
    let a = ws_end(s, lo, hi);
    s.subrange(a, ws_back(s, a, hi))
}

/// The pie chart that `s` describes, or the first failure met when reading it.
///
/// After optional whitespace comes `pie`, then optionally `showData`, then optionally `title`
/// with the text up to the first quote (trimmed) as the title, then one or more data points.
/// Whitespace, line breaks included, may stand between any two of these.
pub open spec fn pie_grammar(s: Seq<char>) -> Result<PieView, Failure> {
    let n = s.len() as int;
    let p0 = ws_end(s, 0, n);
    if !lit_at(s, p0, n, "pie"@) {
        Err((ErrorKind::ExpectedLiteral("pie"), p0))
    } else {
        let p1 = ws_end(s, p0 + "pie"@.len(), n);
        let show_data = lit_at(s, p1, n, "showData"@);
        let p2 = ws_end(
            s,
            if show_data {
                p1 + "showData"@.len()
            } else {
                p1
            },
            n,
        );
        let has_title = lit_at(s, p2, n, "title"@);
        let t = p2 + "title"@.len();
        let q = find_from(s, t, n, '"');
        if has_title && q >= n {
            Err((ErrorKind::SearchLiteral("\""), t))
        } else {
            let title = if has_title {
                Some(trimmed(s, t, q))
            } else {
                None
            };
            let p3 = ws_end(
                s,
                if has_title {
                    q
                } else {
                    p2
                },
                n,
            );
            match datum_at(s, p3, n) {
                Err(f) => Err(f),
                Ok((first, u)) => match more_data(s, u, n) {
                    Err(f) => Err(f),
                    Ok(rest) => Ok(PieView { title, show_data, data: seq![first] + rest }),
                },
            }
        }
    }
}

/// `r` is what parsing `s` gives: the chart that `pie_grammar` describes, or an error that
/// reports its failure.
pub open spec fn pie_outcome(s: Seq<char>, r: Result<Pie, Error>) -> bool {
    match pie_grammar(s) {
        Ok(v) => r is Ok && r->Ok_0@ == v,
        Err((kind, p)) => r is Err && r->Err_0.reports(s, kind, p),
    }
}

fn float_literal(s: &Vec<char>, p: usize, end: usize) -> (r: Result<usize, usize>)
    requires
        p <= end <= s@.len(),
    ensures
        match float_end(s@, p as int, end as int) {
            Ok(u) => r == Ok::<usize, usize>(u as usize) && p < u <= end,
            Err(e) => r == Err::<usize, usize>(e as usize) && p <= e <= end,
        },
{
    let a = if p < end && (s[p] == '+' || s[p] == '-') {
        p + 1
    } else {
        p
    };
    let d = skip_digits(s, a, end);
    let b;
    if d > a {
        if d < end && s[d] == '.' {
            b = skip_digits(s, d + 1, end);
        } else {
            b = d;
        }
    } else if a < end && s[a] == '.' && skip_digits(s, a + 1, end) > a + 1 {
        b = skip_digits(s, a + 1, end);
    } else {
        return Err(p);
    }
    if b < end && (s[b] == 'e' || s[b] == 'E') {
        let c = if b + 1 < end && (s[b + 1] == '+' || s[b + 1] == '-') {
            b + 2
        } else {
            b + 1
        };
        let e = skip_digits(s, c, end);
        if e > c {
            Ok(e)
        } else {
            Err(c)
        }
    } else {
        Ok(b)
    }
}

fn datum(input: &str, s: &Vec<char>, p: usize) -> (r: Result<(Datum, usize), (ErrorKind, usize)>)
    requires
        s@ == input@,
        p <= s@.len(),
    ensures
        match datum_at(s@, p as int, s@.len() as int) {
            Ok((d, u)) => r is Ok && r->Ok_0.0@ == d && r->Ok_0.1 == u && p < u <= s@.len(),
            Err((k, e)) => r is Err && r->Err_0.0 == k && r->Err_0.1 == e && e <= s@.len(),
        },
{
    let n = s.len();
    if !(p < n && s[p] == '"') {
        return Err((ErrorKind::ExpectedLiteral("\""), p));
    }
    let q = find_char(s, p + 1, n, '"');
    if q >= n {
        return Err((ErrorKind::UnclosedQuote("\""), p + 1));
    }
    let r = skip_ws(s, q + 1, n);
    if !(r < n && s[r] == ':') {
        return Err((ErrorKind::ExpectedLiteral(":"), r));
    }
    let t = skip_ws(s, r + 1, n);
    match float_literal(s, t, n) {
        Err(e) => Err((ErrorKind::ExpectedFloat, e)),
        Ok(u) => {
            let label = text_of(input, p + 1, q);
            let value = text_of(input, t, u);
            Ok((Datum { label, value }, u))
        },
    }
}

/// Parse the text of a pie chart.
///
/// Fails with an error located at the first place where the text leaves the grammar; a chart
/// without data points is such a failure.
pub fn parse_pie(input: &str) -> (r: Result<Pie, Error>)
    requires
        input@.len() <= crate::MAX_INPUT_CHARS,
    ensures
        pie_outcome(input@, r),
        r is Ok ==> r->Ok_0.data@.len() >= 1,
{
    let s = chars_of(input);
    let n = s.len();
    let p0 = skip_ws(&s, 0, n);
    if !lit_here(&s, p0, n, "pie") {
        return Err(Error::at(&s, p0, ErrorKind::ExpectedLiteral("pie")));
    }
    let p1 = skip_ws(&s, p0 + "pie".unicode_len(), n);
    let show_data = lit_here(&s, p1, n, "showData");
    let p2 = skip_ws(
        &s,
        if show_data {
            p1 + "showData".unicode_len()
        } else {
            p1
        },
        n,
    );
    let has_title = lit_here(&s, p2, n, "title");
    let mut title: Option<String> = None;
    let mut p3 = p2;
    if has_title {
        let t = p2 + "title".unicode_len();
        let q = find_char(&s, t, n, '"');
        if q >= n {
            return Err(Error::at(&s, t, ErrorKind::SearchLiteral("\"")));
        }
        let (a, b) = trim_range(&s, t, q);
        title = Some(text_of(input, a, b));
        p3 = q;
    }
    let p3 = skip_ws(&s, p3, n);
    let mut data: Vec<Datum> = Vec::new();
    let (first, mut p) = match datum(input, &s, p3) {
        Err((k, e)) => return Err(Error::at(&s, e, k)),
        Ok(x) => x,
    };
    data.push(first);
    proof {
        assert(data@.map_values(|d: Datum| d@) =~= seq![data@[0]@]);
    }
    loop
        invariant
            s@ == input@,
            n == s@.len() <= crate::MAX_INPUT_CHARS,
            p <= n,
            data@.len() >= 1,
            datum_at(s@, p3 as int, n as int) is Ok,
            pie_grammar(s@) == match more_data(s@, p as int, n as int) {
                Err(f) => Err(f),
                Ok(rest) => Ok(
                    PieView {
                        title: match title {
                            Some(t) => Some(t@),
                            None => None,
                        },
                        show_data,
                        data: data@.map_values(|d: Datum| d@) + rest,
                    },
                ),
            },
        ensures
            p <= n,
            data@.len() >= 1,
            ws_end(s@, p as int, n as int) >= n,
            pie_grammar(s@) == match more_data(s@, p as int, n as int) {
                Err(f) => Err(f),
                Ok(rest) => Ok(
                    PieView {
                        title: match title {
                            Some(t) => Some(t@),
                            None => None,
                        },
                        show_data,
                        data: data@.map_values(|d: Datum| d@) + rest,
                    },
                ),
            },
        decreases n - p,
    {
        let r = skip_ws(&s, p, n);
        if r >= n {
            break;
        }
        if s[r] != '"' {
            return Err(Error::at(&s, r, ErrorKind::UnexpectedTrailing));
        }
        match datum(input, &s, r) {
            Err((k, e)) => return Err(Error::at(&s, e, k)),
            Ok((d, u)) => {
                proof {
                    let old_data = data@.map_values(|d: Datum| d@);
                    let rest = more_data(s@, u as int, n as int);
                    if let Ok(rest) = rest {
                        assert(old_data + (seq![d@] + rest) =~= data@.push(d).map_values(
                            |d: Datum| d@,
                        ) + rest);
                    }
                }
                data.push(d);
                p = u;
            },
        }
    }
    proof {
        assert(data@.map_values(|d: Datum| d@) + Seq::<DatumView>::empty() =~= data@.map_values(
            |d: Datum| d@,
        ));
    }
    Ok(Pie { title, show_data, data })
}

/// Parsing is a function of the text: two parses of the same text give equal charts, or
/// equal errors.
pub proof fn lemma_pie_parse_deterministic(s: Seq<char>, r1: Result<Pie, Error>, r2: Result<Pie, Error>)
    requires
        pie_outcome(s, r1),
        pie_outcome(s, r2),
    ensures
        r1 is Ok <==> r2 is Ok,
        r1 is Ok ==> r1->Ok_0@ == r2->Ok_0@,
        r1 is Err ==> r1->Err_0 == r2->Err_0,
{
}

/// A chart that parses has at least one data point: a text whose header is followed by no data
/// point fails.
pub proof fn lemma_pie_has_data(s: Seq<char>)
    ensures
        pie_grammar(s) is Ok ==> pie_grammar(s)->Ok_0.data.len() >= 1,
{
}

/// When the first thing after `pie` is a quote, that is, when both `showData` and the title are
/// left out, the chart does not show values and has no title.
pub proof fn lemma_pie_header_defaults(s: Seq<char>)
    requires
        lit_at(s, ws_end(s, 0, s.len() as int), s.len() as int, "pie"@),
        ws_end(s, ws_end(s, 0, s.len() as int) + 3, s.len() as int) < s.len(),
        s[ws_end(s, ws_end(s, 0, s.len() as int) + 3, s.len() as int)] == '"',
    ensures
        pie_grammar(s) is Ok ==> !pie_grammar(s)->Ok_0.show_data && pie_grammar(s)->Ok_0.title
            is None,
{
    reveal_strlit("pie");
    reveal_strlit("showData");
    reveal_strlit("title");
    let n = s.len() as int;
    let p1 = ws_end(s, ws_end(s, 0, n) + 3, n);
    if lit_at(s, p1, n, "showData"@) {
        assert(s.subrange(p1, p1 + 8)[0] == 's');
    }
    assert(ws_end(s, p1, n) == p1);
    if lit_at(s, p1, n, "title"@) {
        assert(s.subrange(p1, p1 + 5)[0] == 't');
    }
}

/// One data point as chart text: a line break, the quoted label, a colon, a space and the
/// number.
pub open spec fn datum_text(d: DatumView) -> Seq<char> {
    seq!['\n', '"'] + d.0 + seq!['"', ':', ' '] + d.1
}

/// The data points from index `i` on as chart text.
pub open spec fn data_text(data: Seq<DatumView>, i: int) -> Seq<char>
    decreases data.len() - i,
{
    if i < 0 || i >= data.len() {
        Seq::empty()
    } else {
        datum_text(data[i]) + data_text(data, i + 1)
    }
}

/// The chart text `pie` followed by one line for each data point.
pub open spec fn pie_text(data: Seq<DatumView>) -> Seq<char> {
    "pie"@ + data_text(data, 0)
}

/// `v` is one whole number literal.
pub open spec fn is_number_literal(v: Seq<char>) -> bool {
    float_end(v, 0, v.len() as int) == Ok::<int, int>(v.len() as int)
}

/// `l` can stand between quotes: it holds no quote.
pub open spec fn is_quotable(l: Seq<char>) -> bool {
    forall|j: int| 0 <= j < l.len() ==> l[j] != '"'
}

/// Each label can stand between quotes and each number is one whole literal.
pub open spec fn is_writable(data: Seq<DatumView>) -> bool {
    forall|k: int|
        0 <= k < data.len() ==> is_quotable(#[trigger] data[k].0) && is_number_literal(data[k].1)
}

proof fn lemma_digits_local(s: Seq<char>, t: int, end: int, v: Seq<char>, i: int)
    requires
        0 <= t,
        t + v.len() <= end <= s.len(),
        s.subrange(t, t + v.len()) == v,
        t + v.len() < end ==> s[t + v.len()] == '\n',
        0 <= i <= v.len(),
    ensures
        digits_end(s, t + i, end) == t + digits_end(v, i, v.len() as int),
    decreases v.len() - i,
{
    if i < v.len() {
        assert(s[t + i] == s.subrange(t, t + v.len())[i]);
        if is_digit(v[i]) {
            lemma_digits_local(s, t, end, v, i + 1);
        }
    }
}

proof fn lemma_float_local(s: Seq<char>, t: int, end: int, v: Seq<char>)
    requires
        0 <= t,
        t + v.len() <= end <= s.len(),
        s.subrange(t, t + v.len()) == v,
        t + v.len() < end ==> s[t + v.len()] == '\n',
        is_number_literal(v),
    ensures
        float_end(s, t, end) == Ok::<int, int>(t + v.len()),
        v.len() > 0,
        !is_ws(s[t]),
{
    let n = v.len() as int;
    assert forall|x: int| 0 <= x < n implies s[t + x] == v[x] by {
        assert(s[t + x] == s.subrange(t, t + n)[x]);
    }
    let a = if 0 < n && (v[0] == '+' || v[0] == '-') {
        1int
    } else {
        0int
    };
    lemma_digits_local(s, t, end, v, 0);
    lemma_digits_end_bounds(v, 0, n);
    if a <= n {
        lemma_digits_local(s, t, end, v, a);
        lemma_digits_end_bounds(v, a, n);
    }
    if a + 1 <= n {
        lemma_digits_local(s, t, end, v, a + 1);
        lemma_digits_end_bounds(v, a + 1, n);
    }
    let d = digits_end(v, a, n);
    if 0 <= d + 1 <= n {
        lemma_digits_local(s, t, end, v, d + 1);
        lemma_digits_end_bounds(v, d + 1, n);
    }
    let b = if d > a {
        if d < n && v[d] == '.' {
            digits_end(v, d + 1, n)
        } else {
            d
        }
    } else {
        digits_end(v, a + 1, n)
    };
    if 0 <= b + 1 <= n {
        lemma_digits_local(s, t, end, v, b + 1);
        lemma_digits_end_bounds(v, b + 1, n);
    }
    if 0 <= b + 2 <= n {
        lemma_digits_local(s, t, end, v, b + 2);
        lemma_digits_end_bounds(v, b + 2, n);
    }
}

proof fn lemma_find_quote(s: Seq<char>, p: int, q: int, end: int)
    requires
        0 <= p <= q < end <= s.len(),
        s[q] == '"',
        forall|j: int| p <= j < q ==> s[j] != '"',
    ensures
        find_from(s, p, end, '"') == q,
    decreases q - p,
{
    if p < q {
        lemma_find_quote(s, p + 1, q, end);
    }
}

proof fn lemma_data_text_suffix(data: Seq<DatumView>, i: int)
    requires
        0 <= i <= data.len(),
    ensures
        3 <= pie_text(data).len() - data_text(data, i).len(),
        pie_text(data).subrange(
            pie_text(data).len() - data_text(data, i).len(),
            pie_text(data).len() as int,
        ) == data_text(data, i),
    decreases i,
{
    reveal_strlit("pie");
    let s = pie_text(data);
    let n = s.len() as int;
    if i == 0 {
        assert(s.subrange(n - data_text(data, 0).len(), n) =~= data_text(data, 0));
    } else {
        lemma_data_text_suffix(data, i - 1);
        let prev = data_text(data, i - 1);
        let e = datum_text(data[i - 1]);
        let a = n - prev.len();
        assert(prev == e + data_text(data, i));
        assert(s.subrange(a, n) == prev);
        assert(data_text(data, i) =~= prev.subrange(e.len() as int, prev.len() as int));
        assert(s.subrange(n - data_text(data, i).len(), n) =~= s.subrange(a, n).subrange(
            e.len() as int,
            prev.len() as int,
        ));
    }
}

proof fn lemma_more_data_text(data: Seq<DatumView>, i: int)
    requires
        1 <= i <= data.len(),
        is_writable(data),
    ensures
        more_data(
            pie_text(data),
            pie_text(data).len() - data_text(data, i).len(),
            pie_text(data).len() as int,
        ) == Ok::<Seq<DatumView>, Failure>(data.subrange(i, data.len() as int)),
    decreases data.len() - i,
{
    let s = pie_text(data);
    let n = s.len() as int;
    let p = n - data_text(data, i).len();
    if i == data.len() {
        assert(data.subrange(i, data.len() as int) =~= Seq::<DatumView>::empty());
    } else {
        lemma_datum_text_step(data, i);
        lemma_more_data_text(data, i + 1);
        assert(data.subrange(i, data.len() as int) =~= seq![data[i]] + data.subrange(
            i + 1,
            data.len() as int,
        ));
    }
}

proof fn lemma_datum_text_step(data: Seq<DatumView>, i: int)
    requires
        0 <= i < data.len(),
        is_writable(data),
    ensures
        ({
            let s = pie_text(data);
            let n = s.len() as int;
            let p = n - data_text(data, i).len();
            &&& ws_end(s, p, n) == p + 1
            &&& p + 1 < n && s[p + 1] == '"'
            &&& datum_at(s, p + 1, n) == Ok::<(DatumView, int), Failure>(
                (data[i], n - data_text(data, i + 1).len()),
            )
            &&& n - data_text(data, i + 1).len() > p
        }),
{
    let s = pie_text(data);
    let n = s.len() as int;
    let p = n - data_text(data, i).len();
    let l = data[i].0;
    let v = data[i].1;
    let e = datum_text(data[i]);
    lemma_data_text_suffix(data, i);
    assert(data_text(data, i) == e + data_text(data, i + 1));
    let tail = s.subrange(p, n);
    assert(tail == e + data_text(data, i + 1));
    assert forall|x: int| 0 <= x < e.len() implies s[p + x] == e[x] by {
        assert(s[p + x] == tail[x]);
    }
    assert(e[0] == '\n');
    assert(e[1] == '"');
    assert(ws_end(s, p + 1, n) == p + 1);
    let q = p + 2 + l.len();
    assert forall|j: int| p + 2 <= j < q implies s[j] != '"' by {
        assert(s[j] == e[j - p]);
        assert(e[j - p] == l[j - p - 2]);
    }
    assert(e[2 + l.len() as int] == '"');
    lemma_find_quote(s, p + 2, q, n);
    assert(e[3 + l.len() as int] == ':');
    assert(ws_end(s, q + 1, n) == q + 1);
    assert(e[4 + l.len() as int] == ' ');
    let t = q + 3;
    assert(s.subrange(t, t + v.len()) =~= v) by {
        assert forall|x: int| 0 <= x < v.len() implies s.subrange(t, t + v.len())[x] == v[x] by {
            assert(s[t + x] == e[5 + l.len() + x]);
        }
    }
    assert(s.subrange(p + 2, q) =~= l) by {
        assert forall|x: int| 0 <= x < l.len() implies s.subrange(p + 2, q)[x] == l[x] by {
            assert(s[p + 2 + x] == e[2 + x]);
        }
    }
    let next = n - data_text(data, i + 1).len();
    assert(next == t + v.len());
    if next < n {
        lemma_data_text_suffix(data, i + 1);
        assert(data_text(data, i + 1)[0] == '\n');
        assert(s[next] == s.subrange(next, n)[0]);
    }
    lemma_float_local(s, t, n, v);
    assert(ws_end(s, t, n) == t);
    assert(ws_end(s, q + 2, n) == t);
}

/// A chart text written as `pie` and then, on a line of its own, each data point as
/// `"label": number`, parses back to exactly those data points, in order, with no title and
/// without values shown. Labels hold no quote and each number is one whole literal.
pub proof fn lemma_pie_round_trip(data: Seq<DatumView>)
    requires
        data.len() >= 1,
        is_writable(data),
    ensures
        pie_grammar(pie_text(data)) == Ok::<PieView, Failure>(
            PieView { title: None, show_data: false, data },
        ),
{
    reveal_strlit("pie");
    reveal_strlit("showData");
    reveal_strlit("title");
    let s = pie_text(data);
    let n = s.len() as int;
    assert(data_text(data, 0).len() == n - 3);
    lemma_datum_text_step(data, 0);
    assert(s[0] == 'p');
    assert(ws_end(s, 0, n) == 0);
    assert(s.subrange(0, 3) =~= "pie"@);
    assert(ws_end(s, 3, n) == 4);
    assert(!lit_at(s, 4, n, "showData"@)) by {
        if lit_at(s, 4, n, "showData"@) {
            assert(s.subrange(4, 12)[0] == 's');
        }
    }
    assert(!lit_at(s, 4, n, "title"@)) by {
        if lit_at(s, 4, n, "title"@) {
            assert(s.subrange(4, 9)[0] == 't');
        }
    }
    assert(ws_end(s, 4, n) == 4);
    lemma_more_data_text(data, 1);
    assert(seq![data[0]] + data.subrange(1, data.len() as int) =~= data);
}

impl Pie {
    /// Parse a chart description.
    pub fn parse(src: &str) -> (r: Result<Pie, Error>)
        requires
            src@.len() <= crate::MAX_INPUT_CHARS,
        ensures
            pie_outcome(src@, r),
            r is Ok ==> r->Ok_0.data@.len() >= 1,
    {
        parse_pie(src)
    }
}

} // verus!
