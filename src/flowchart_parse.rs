//! The flowchart grammar and its parser.
//!
//! A flowchart is the word `flowchart`, a direction, and one statement per non-blank line. A
//! statement joins lists of nodes with connectors: `A --> B & C --> D`.
use vstd::prelude::*;

use crate::flowchart::{
    lemma_connect_failure_pos, lemma_register_failure_bound, connect_all, mentions_view, register_from, ArrowStyle, Connector, Direction, FlowView,
    Failure, Flowchart, LineStyle, Mention, Node, NodeStyle, NodeView, ParseError, ParseErrorKind,
};
use crate::scan::{
    alnum_end, chars_of, find_char, find_from, lit_at, lit_here, run_end, skip_alnum, skip_run,
    skip_ws, text_of, trim_range, ws_back, ws_end,
};

verus! {

/// The delimiter that opens a node's shape.
#[derive(Debug, Clone, Copy, PartialEq, Eq, Structural)]
pub enum Opening {
    /// `(((`
    Paren3,
    /// `([`
    ParenBracket,
    /// `[[`
    Bracket2,
    /// `[(`
    BracketParen,
    /// `((`
    Paren2,
    /// `{{`
    Brace2,
    /// `[/`
    BracketSlash,
    /// `[\`
    BracketBackslash,
    /// `[`
    Bracket,
    /// `(`
    Paren,
    /// `>`
    Angle,
    /// `{`
    Brace,
}

impl Opening {
    /// The text of the delimiter.
    pub fn text(self) -> (r: &'static str)
        ensures
            r@ == opening_text(self),
    {
        match self {
            Opening::Paren3 => "(((",
            Opening::ParenBracket => "([",
            Opening::Bracket2 => "[[",
            Opening::BracketParen => "[(",
            Opening::Paren2 => "((",
            Opening::Brace2 => "{{",
            Opening::BracketSlash => "[/",
            Opening::BracketBackslash => "[\\",
            Opening::Bracket => "[",
            Opening::Paren => "(",
            Opening::Angle => ">",
            Opening::Brace => "{",
        }
    }
}

/// The text of the delimiter `o`.
pub open spec fn opening_text(o: Opening) -> Seq<char> {
    match o {
        Opening::Paren3 => "((("@,
        Opening::ParenBracket => "(["@,
        Opening::Bracket2 => "[["@,
        Opening::BracketParen => "[("@,
        Opening::Paren2 => "(("@,
        Opening::Brace2 => "{{"@,
        Opening::BracketSlash => "[/"@,
        Opening::BracketBackslash => "[\\"@,
        Opening::Bracket => "["@,
        Opening::Paren => "("@,
        Opening::Angle => ">"@,
        Opening::Brace => "{"@,
    }
}

/// The shape opening at `p`: the first of the delimiters, longest first, that stands there.
pub open spec fn opening_at(s: Seq<char>, p: int, end: int) -> Option<Opening> {
    if lit_at(s, p, end, "((("@) {
        Some(Opening::Paren3)
    } else if lit_at(s, p, end, "(["@) {
        Some(Opening::ParenBracket)
    } else if lit_at(s, p, end, "[["@) {
        Some(Opening::Bracket2)
    } else if lit_at(s, p, end, "[("@) {
        Some(Opening::BracketParen)
    } else if lit_at(s, p, end, "(("@) {
        Some(Opening::Paren2)
    } else if lit_at(s, p, end, "{{"@) {
        Some(Opening::Brace2)
    } else if lit_at(s, p, end, "[/"@) {
        Some(Opening::BracketSlash)
    } else if lit_at(s, p, end, "[\\"@) {
        Some(Opening::BracketBackslash)
    } else if lit_at(s, p, end, "["@) {
        Some(Opening::Bracket)
    } else if lit_at(s, p, end, "("@) {
        Some(Opening::Paren)
    } else if lit_at(s, p, end, ">"@) {
        Some(Opening::Angle)
    } else if lit_at(s, p, end, "{"@) {
        Some(Opening::Brace)
    } else {
        None
    }
}

/// `lit` closes a shape `style` at `p`: the style and the position after `lit`.
pub open spec fn close_with(s: Seq<char>, p: int, end: int, lit: Seq<char>, style: NodeStyle) -> Option<
    (NodeStyle, int),
> {
    if lit_at(s, p, end, lit) {
        Some((style, p + lit.len()))
    } else {
        None
    }
}

/// A delimiter at `p` that closes the shape opened by `o`, with the shape it selects and the
/// position after it. `[/` and `[\` each have two closings, tried in the order shown.
pub open spec fn closing_at(o: Opening, s: Seq<char>, p: int, end: int) -> Option<(NodeStyle, int)> {
    match o {
        Opening::Paren3 => close_with(s, p, end, ")))"@, NodeStyle::DoubleCircle),
        Opening::ParenBracket => close_with(s, p, end, "])"@, NodeStyle::Stadium),
        Opening::Bracket2 => close_with(s, p, end, "]]"@, NodeStyle::Subroutine),
        Opening::BracketParen => close_with(s, p, end, ")]"@, NodeStyle::Cylinder),
        Opening::Paren2 => close_with(s, p, end, "))"@, NodeStyle::Circle),
        Opening::Brace2 => close_with(s, p, end, "}}"@, NodeStyle::Hexagon),
        Opening::BracketSlash => match close_with(s, p, end, "/]"@, NodeStyle::Parallelogram) {
            Some(r) => Some(r),
            None => close_with(s, p, end, "\\]"@, NodeStyle::Trapezoid),
        },
        Opening::BracketBackslash => match close_with(
            s,
            p,
            end,
            "\\]"@,
            NodeStyle::ParallelogramRev,
        ) {
            Some(r) => Some(r),
            None => close_with(s, p, end, "/]"@, NodeStyle::TrapezoidRev),
        },
        Opening::Bracket => close_with(s, p, end, "]"@, NodeStyle::Square),
        Opening::Paren => close_with(s, p, end, ")"@, NodeStyle::Round),
        Opening::Angle => close_with(s, p, end, "]"@, NodeStyle::Asymmetric),
        Opening::Brace => close_with(s, p, end, "}"@, NodeStyle::Rhombus),
    }
}

/// The first position at or after `q` where a closing of `o` stands, with the shape it selects
/// and the position after it.
pub open spec fn close_search(o: Opening, s: Seq<char>, q: int, end: int) -> Option<
    (int, NodeStyle, int),
>
    decreases end - q,
{
    if q >= end {
        None
    } else {
        match closing_at(o, s, q, end) {
            Some((style, e)) => Some((q, style, e)),
            None => close_search(o, s, q + 1, end),
        }
    }
}

/// A node at `p`: an identifier, then optionally a shape. A shape is an opening, a label and
/// the matching closing. The label is either quoted (whitespace may stand around the quotes,
/// and the label is the text between them) or everything up to the first matching closing.
/// A node without a shape has an empty label and the square shape, and the whitespace after
/// its identifier is taken with it.
pub open spec fn node_at(s: Seq<char>, p: int, end: int) -> Result<(NodeView, int), Failure> {
    let q = alnum_end(s, p, end);
    if q <= p {
        Err((ParseErrorKind::ExpectedIdent, p))
    } else {
        let id = s.subrange(p, q);
        let r = ws_end(s, q, end);
        match opening_at(s, r, end) {
            None => Ok((NodeView { id, label: Seq::empty(), style: NodeStyle::Square }, r)),
            Some(o) => {
                let t0 = r + opening_text(o).len();
                let t = ws_end(s, t0, end);
                if t < end && s[t] == '"' {
                    let j = find_from(s, t + 1, end, '"');
                    if j >= end {
                        Err((ParseErrorKind::UnclosedQuote, t))
                    } else {
                        let u = ws_end(s, j + 1, end);
                        match closing_at(o, s, u, end) {
                            None => Err((ParseErrorKind::UnmatchedShape, u)),
                            Some((style, e)) => Ok(
                                (NodeView { id, label: s.subrange(t + 1, j), style }, e),
                            ),
                        }
                    }
                } else {
                    match close_search(o, s, t0, end) {
                        None => Err((ParseErrorKind::UnclosedNode, t0)),
                        Some((k, style, e)) => Ok(
                            (NodeView { id, label: s.subrange(t0, k), style }, e),
                        ),
                    }
                }
            },
        }
    }
}

/// The nodes `acc`, then each further node of the list after the one that ends at `p`: each is
/// preceded by `&`, with whitespace around it. On success, the nodes and the position after
/// the whitespace that follows the last.
pub open spec fn more_nodes(s: Seq<char>, p: int, end: int, acc: Seq<Mention>) -> Result<
    (Seq<Mention>, int),
    Failure,
>
    decreases end - p,
{
    if p < end && s[p] == '&' {
        let t = ws_end(s, p + 1, end);
        match node_at(s, t, end) {
            Err(f) => Err(f),
            Ok((n, q)) => if p < ws_end(s, q, end) <= end {
                more_nodes(s, ws_end(s, q, end), end, acc.push((n, t)))
            } else {
                Ok((acc, p))
            },
        }
    } else {
        Ok((acc, p))
    }
}

/// A list of one or more nodes at `p`, separated by `&`.
pub open spec fn node_list_at(s: Seq<char>, p: int, end: int) -> Result<(Seq<Mention>, int), Failure> {
    match node_at(s, p, end) {
        Err(f) => Err(f),
        Ok((n, q)) => more_nodes(s, ws_end(s, q, end), end, seq![(n, p)]),
    }
}

fn opening(s: &Vec<char>, p: usize, end: usize) -> (r: Option<Opening>)
    requires
        p <= end <= s@.len(),
    ensures
        r == opening_at(s@, p as int, end as int),
{
    if lit_here(s, p, end, "(((") {
        Some(Opening::Paren3)
    } else if lit_here(s, p, end, "([") {
        Some(Opening::ParenBracket)
    } else if lit_here(s, p, end, "[[") {
        Some(Opening::Bracket2)
    } else if lit_here(s, p, end, "[(") {
        Some(Opening::BracketParen)
    } else if lit_here(s, p, end, "((") {
        Some(Opening::Paren2)
    } else if lit_here(s, p, end, "{{") {
        Some(Opening::Brace2)
    } else if lit_here(s, p, end, "[/") {
        Some(Opening::BracketSlash)
    } else if lit_here(s, p, end, "[\\") {
        Some(Opening::BracketBackslash)
    } else if lit_here(s, p, end, "[") {
        Some(Opening::Bracket)
    } else if lit_here(s, p, end, "(") {
        Some(Opening::Paren)
    } else if lit_here(s, p, end, ">") {
        Some(Opening::Angle)
    } else if lit_here(s, p, end, "{") {
        Some(Opening::Brace)
    } else {
        None
    }
}

fn close_here(s: &Vec<char>, p: usize, end: usize, lit: &str, style: NodeStyle) -> (r: Option<
    (NodeStyle, usize),
>)
    requires
        p <= end <= s@.len(),
        lit@.len() > 0,
    ensures
        match close_with(s@, p as int, end as int, lit@, style) {
            Some((st, e)) => r == Some((st, e as usize)) && p < e <= end,
            None => r is None,
        },
{
    if lit_here(s, p, end, lit) {
        Some((style, p + lit.unicode_len()))
    } else {
        None
    }
}

fn closing(o: Opening, s: &Vec<char>, p: usize, end: usize) -> (r: Option<(NodeStyle, usize)>)
    requires
        p <= end <= s@.len(),
    ensures
        match closing_at(o, s@, p as int, end as int) {
            Some((st, e)) => r == Some((st, e as usize)) && p < e <= end,
            None => r is None,
        },
{
    proof {
        reveal_strlit(")))");
        reveal_strlit("])");
        reveal_strlit("]]");
        reveal_strlit(")]");
        reveal_strlit("))");
        reveal_strlit("}}");
        reveal_strlit("/]");
        reveal_strlit("\\]");
        reveal_strlit("]");
        reveal_strlit(")");
        reveal_strlit("}");
    }
    match o {
        Opening::Paren3 => close_here(s, p, end, ")))", NodeStyle::DoubleCircle),
        Opening::ParenBracket => close_here(s, p, end, "])", NodeStyle::Stadium),
        Opening::Bracket2 => close_here(s, p, end, "]]", NodeStyle::Subroutine),
        Opening::BracketParen => close_here(s, p, end, ")]", NodeStyle::Cylinder),
        Opening::Paren2 => close_here(s, p, end, "))", NodeStyle::Circle),
        Opening::Brace2 => close_here(s, p, end, "}}", NodeStyle::Hexagon),
        Opening::BracketSlash => match close_here(s, p, end, "/]", NodeStyle::Parallelogram) {
            Some(r) => Some(r),
            None => close_here(s, p, end, "\\]", NodeStyle::Trapezoid),
        },
        Opening::BracketBackslash => match close_here(
            s,
            p,
            end,
            "\\]",
            NodeStyle::ParallelogramRev,
        ) {
            Some(r) => Some(r),
            None => close_here(s, p, end, "/]", NodeStyle::TrapezoidRev),
        },
        Opening::Bracket => close_here(s, p, end, "]", NodeStyle::Square),
        Opening::Paren => close_here(s, p, end, ")", NodeStyle::Round),
        Opening::Angle => close_here(s, p, end, "]", NodeStyle::Asymmetric),
        Opening::Brace => close_here(s, p, end, "}", NodeStyle::Rhombus),
    }
}

fn find_closing(o: Opening, s: &Vec<char>, q: usize, end: usize) -> (r: Option<
    (usize, NodeStyle, usize),
>)
    requires
        q <= end <= s@.len(),
    ensures
        match close_search(o, s@, q as int, end as int) {
            Some((k, st, e)) => r == Some((k as usize, st, e as usize)) && q <= k < e <= end,
            None => r is None,
        },
{
    let mut k = q;
    while k < end
        invariant
            q <= k <= end <= s@.len(),
            close_search(o, s@, k as int, end as int) == close_search(o, s@, q as int, end as int),
        decreases end - k,
    {
        match closing(o, s, k, end) {
            Some((st, e)) => return Some((k, st, e)),
            None => {},
        }
        k = k + 1;
    }
    None
}

fn node(input: &str, s: &Vec<char>, p: usize, end: usize) -> (r: Result<(Node, usize), (ParseErrorKind, usize)>)
    requires
        s@ == input@,
        p <= end <= s@.len(),
    ensures
        match node_at(s@, p as int, end as int) {
            Ok((n, q)) => r is Ok && r->Ok_0.0@ == n && r->Ok_0.1 == q && p < q <= end,
            Err(f) => r is Err && r->Err_0.0 == f.0 && r->Err_0.1 == f.1 && f.1 <= end,
        },
{
    let q = skip_alnum(s, p, end);
    if q <= p {
        return Err((ParseErrorKind::ExpectedIdent, p));
    }
    let id = text_of(input, p, q);
    let r = skip_ws(s, q, end);
    match opening(s, r, end) {
        None => Ok((Node { id, label: String::new(), style: NodeStyle::Square }, r)),
        Some(o) => {
            let t0 = r + o.text().unicode_len();
            let t = skip_ws(s, t0, end);
            if t < end && s[t] == '"' {
                let j = find_char(s, t + 1, end, '"');
                if j >= end {
                    return Err((ParseErrorKind::UnclosedQuote, t));
                }
                let u = skip_ws(s, j + 1, end);
                match closing(o, s, u, end) {
                    None => Err((ParseErrorKind::UnmatchedShape, u)),
                    Some((style, e)) => {
                        let label = text_of(input, t + 1, j);
                        Ok((Node { id, label, style }, e))
                    },
                }
            } else {
                match find_closing(o, s, t0, end) {
                    None => Err((ParseErrorKind::UnclosedNode, t0)),
                    Some((k, style, e)) => {
                        let label = text_of(input, t0, k);
                        Ok((Node { id, label, style }, e))
                    },
                }
            }
        },
    }
}

/// The node lists of the statement being read, kept from one statement to the next so that
/// their storage is reused.
struct ParseCtx {
    left_node_scratch: Vec<(Node, usize)>,
    right_node_scratch: Vec<(Node, usize)>,
}

impl ParseCtx {
    fn new() -> (r: ParseCtx)
        ensures
            r.left_node_scratch@.len() == 0,
            r.right_node_scratch@.len() == 0,
    {
        ParseCtx { left_node_scratch: Vec::new(), right_node_scratch: Vec::new() }
    }
}

/// Reads a node list into `nodes`, replacing what it held.
fn node_list(input: &str, s: &Vec<char>, p: usize, end: usize, nodes: &mut Vec<(Node, usize)>) -> (r:
    Result<usize, (ParseErrorKind, usize)>)
    requires
        s@ == input@,
        p <= end <= s@.len(),
    ensures
        match node_list_at(s@, p as int, end as int) {
            Ok((ns, q)) => r is Ok && mentions_view(final(nodes)@) == ns && r->Ok_0 == q && p < q
                <= end && forall|k: int| 0 <= k < ns.len() ==> #[trigger] ns[k].1 <= end,
            Err(f) => r is Err && r->Err_0.0 == f.0 && r->Err_0.1 == f.1 && f.1 <= end,
        },
{
    nodes.clear();
    let (first, q) = match node(input, s, p, end) {
        Err(f) => return Err(f),
        Ok(x) => x,
    };
    nodes.push((first, p));
    assert(mentions_view(nodes@) =~= seq![(first@, p as int)]);
    let mut i = skip_ws(s, q, end);
    while i < end && s[i] == '&'
        invariant
            s@ == input@,
            p < i <= end <= s@.len(),
            forall|k: int| 0 <= k < nodes@.len() ==> #[trigger] nodes@[k].1 <= end,
            node_list_at(s@, p as int, end as int) == more_nodes(
                s@,
                i as int,
                end as int,
                mentions_view(nodes@),
            ),
        decreases end - i,
    {
        let t = skip_ws(s, i + 1, end);
        let (n, q) = match node(input, s, t, end) {
            Err(f) => return Err(f),
            Ok(x) => x,
        };
        let ghost before = nodes@;
        nodes.push((n, t));
        assert(mentions_view(nodes@) =~= mentions_view(before).push((n@, t as int)));
        i = skip_ws(s, q, end);
    }
    Ok(i)
}

/// An arrow head at `p`: `o` (circle), `x` (cross), or an arrow, written `<` at the leading end
/// of a connector and `>` at the trailing end.
pub open spec fn arrow_at(s: Seq<char>, p: int, end: int, leading: bool) -> Option<ArrowStyle> {
    if !(0 <= p < end) {
        None
    } else if s[p] == 'o' {
        Some(ArrowStyle::Circle)
    } else if s[p] == 'x' {
        Some(ArrowStyle::Cross)
    } else if (leading && s[p] == '<') || (!leading && s[p] == '>') {
        Some(ArrowStyle::Arrow)
    } else {
        None
    }
}

/// The end of the run of line characters (`-` or `=`) that starts at `p`.
pub open spec fn line_end(s: Seq<char>, p: int, end: int) -> int
    decreases end - p,
{
    if 0 <= p < end && (s[p] == '-' || s[p] == '=') {
        line_end(s, p + 1, end)
    } else {
        p
    }
}

/// A dotted connector at `p`: an optional leading head, `-`, one or more dots, `-`, an optional
/// trailing head. Its rank is the number of dots. `None` if no dotted connector stands at `p`.
pub open spec fn dotted_at(s: Seq<char>, p: int, end: int) -> Option<Result<(Connector, int), Failure>> {
    let a = arrow_at(s, p, end, true);
    let q = if a is Some {
        p + 1
    } else {
        p
    };
    if !(q < end && s[q] == '-') {
        None
    } else {
        let d = run_end(s, q + 1, end, '.');
        if d == q + 1 || !(d < end && s[d] == '-') {
            None
        } else {
            let b = arrow_at(s, d + 1, end, false);
            let e = if b is Some {
                d + 2
            } else {
                d + 1
            };
            let dots = d - (q + 1);
            if dots > 0xffff {
                Some(Err((ParseErrorKind::RankOverflow, p)))
            } else {
                Some(
                    Ok(
                        (
                            Connector {
                                line_style: LineStyle::Dotted,
                                arrow_start: a,
                                arrow_end: b,
                                rank: dots as u16,
                            },
                            e,
                        ),
                    ),
                )
            }
        }
    }
}

/// A solid connector at `p`: an optional leading head, a run of line characters that are all
/// `-` (a normal line) or all `=` (a thick line), and an optional trailing head. Without a
/// leading head the run needs two characters, and its first one does not count. The rank is
/// the number of characters that count, less one if there is no trailing head.
pub open spec fn solid_at(s: Seq<char>, p: int, end: int) -> Result<(Connector, int), Failure> {
    let a = arrow_at(s, p, end, true);
    let q = if a is Some {
        p + 1
    } else {
        p
    };
    let extra = if a is Some {
        0int
    } else {
        1int
    };
    let l = line_end(s, q, end);
    if l - q < extra + 1 {
        Err((ParseErrorKind::ExpectedConnector, p))
    } else if run_end(s, q, end, s[q]) < l {
        Err((ParseErrorKind::MixedLineStyle, run_end(s, q, end, s[q])))
    } else {
        let count = l - q - extra;
        if count > 0xffff {
            Err((ParseErrorKind::RankOverflow, p))
        } else {
            let b = arrow_at(s, l, end, false);
            let e = if b is Some {
                l + 1
            } else {
                l
            };
            let rank = if b is Some {
                count
            } else {
                count - 1
            };
            let line_style = if s[q] == '-' {
                LineStyle::Normal
            } else {
                LineStyle::Thick
            };
            Ok((Connector { line_style, arrow_start: a, arrow_end: b, rank: rank as u16 }, e))
        }
    }
}

/// A connector at `p`: dotted if one stands there, else solid.
pub open spec fn connector_at(s: Seq<char>, p: int, end: int) -> Result<(Connector, int), Failure> {
    match dotted_at(s, p, end) {
        Some(r) => r,
        None => solid_at(s, p, end),
    }
}

/// The rest of a statement from `p`, where `left` is the node list read last: each further
/// connector and node list joins `left` to the new list, which becomes `left` in turn.
pub open spec fn chain_at(s: Seq<char>, p: int, end: int, m: FlowView, left: Seq<Mention>) -> Result<
    FlowView,
    Failure,
>
    decreases end - p,
{
    if p >= end {
        Ok(m)
    } else {
        match connector_at(s, p, end) {
            Err(f) => Err(f),
            Ok((c, p2)) => match node_list_at(s, ws_end(s, p2, end), end) {
                Err(f) => Err(f),
                Ok((right, p4)) => if p < p4 <= end {
                    match register_from(m, right, 0) {
                        Err(f) => Err(f),
                        Ok(m1) => match connect_all(m1, left, right, c, p, 0) {
                            Err(f) => Err(f),
                            Ok(m2) => chain_at(s, p4, end, m2, right),
                        },
                    }
                } else {
                    Err((ParseErrorKind::ExpectedConnector, p))
                },
            },
        }
    }
}

/// The flowchart `m` after the statement `s[a..end]`: a node list, a connector, a node list,
/// and then the rest of the chain. The nodes of both lists are registered, left then right,
/// before the connectors between them are added.
pub open spec fn statement_at(s: Seq<char>, a: int, end: int, m: FlowView) -> Result<FlowView, Failure> {
    match node_list_at(s, a, end) {
        Err(f) => Err(f),
        Ok((left, p1)) => match connector_at(s, p1, end) {
            Err(f) => Err(f),
            Ok((c, p2)) => match node_list_at(s, ws_end(s, p2, end), end) {
                Err(f) => Err(f),
                Ok((right, p4)) => match register_from(m, left, 0) {
                    Err(f) => Err(f),
                    Ok(m1) => match register_from(m1, right, 0) {
                        Err(f) => Err(f),
                        Ok(m2) => match connect_all(m2, left, right, c, p1, 0) {
                            Err(f) => Err(f),
                            Ok(m3) => chain_at(s, p4, end, m3, right),
                        },
                    },
                },
            },
        },
    }
}

/// The flowchart `m` after the lines from `start` to `n`, each a statement once whitespace is
/// trimmed from both of its ends, or blank.
pub open spec fn lines_from(s: Seq<char>, start: int, n: int, m: FlowView) -> Result<FlowView, Failure>
    decreases n - start,
{
    let nl = find_from(s, start, n, '\n');
    let a = ws_end(s, start, nl);
    let b = ws_back(s, a, nl);
    let r = if a < b {
        statement_at(s, a, b, m)
    } else {
        Ok(m)
    };
    match r {
        Err(f) => Err(f),
        Ok(m1) => if start <= nl < n {
            lines_from(s, nl + 1, n, m1)
        } else {
            Ok(m1)
        },
    }
}

/// The direction at `p` and the position after it.
pub open spec fn direction_at(s: Seq<char>, p: int, end: int) -> Option<(Direction, int)> {
    if lit_at(s, p, end, "TB"@) {
        Some((Direction::TopBottom, p + "TB"@.len()))
    } else if lit_at(s, p, end, "TD"@) {
        Some((Direction::TopBottom, p + "TD"@.len()))
    } else if lit_at(s, p, end, "BT"@) {
        Some((Direction::BottomTop, p + "BT"@.len()))
    } else if lit_at(s, p, end, "RL"@) {
        Some((Direction::RightLeft, p + "RL"@.len()))
    } else if lit_at(s, p, end, "LR"@) {
        Some((Direction::LeftRight, p + "LR"@.len()))
    } else {
        None
    }
}

/// The flowchart that `s` describes, or the first failure met when reading it: optional
/// whitespace, `flowchart`, a direction, and then the lines that follow the direction.
pub open spec fn flowchart_grammar(s: Seq<char>) -> Result<FlowView, Failure> {
    let n = s.len() as int;
    let p0 = ws_end(s, 0, n);
    if !lit_at(s, p0, n, "flowchart"@) {
        Err((ParseErrorKind::ExpectedLiteral("flowchart"), p0))
    } else {
        let p1 = ws_end(s, p0 + "flowchart"@.len(), n);
        match direction_at(s, p1, n) {
            None => Err((ParseErrorKind::ExpectedDirection, p1)),
            Some((direction, p2)) => lines_from(
                s,
                p2,
                n,
                FlowView { direction, nodes: Seq::empty(), edges: Map::empty() },
            ),
        }
    }
}

/// `r` is what parsing `s` gives: the flowchart that `flowchart_grammar` describes, or an error
/// that reports its failure.
pub open spec fn flowchart_outcome(s: Seq<char>, r: Result<Flowchart, ParseError>) -> bool {
    match flowchart_grammar(s) {
        Ok(v) => r is Ok && r->Ok_0@ == v,
        Err((kind, p)) => r is Err && r->Err_0.reports(s, kind, p),
    }
}

/// `r` is the exec form of `x`, a connector and the position after it or a failure, read at
/// `p`.
pub open spec fn conn_agrees(
    r: Result<(Connector, usize), (ParseErrorKind, usize)>,
    x: Result<(Connector, int), Failure>,
    p: int,
    end: int,
) -> bool {
    match x {
        Ok((c, e)) => r is Ok && r->Ok_0.0 == c && r->Ok_0.1 == e && p < e <= end,
        Err(f) => r is Err && r->Err_0.0 == f.0 && r->Err_0.1 == f.1 && f.1 <= end,
    }
}

fn arrow(s: &Vec<char>, p: usize, end: usize, leading: bool) -> (r: Option<ArrowStyle>)
    requires
        end <= s@.len(),
    ensures
        r == arrow_at(s@, p as int, end as int, leading),
{
    if p >= end {
        None
    } else if s[p] == 'o' {
        Some(ArrowStyle::Circle)
    } else if s[p] == 'x' {
        Some(ArrowStyle::Cross)
    } else if (leading && s[p] == '<') || (!leading && s[p] == '>') {
        Some(ArrowStyle::Arrow)
    } else {
        None
    }
}

fn skip_line(s: &Vec<char>, p: usize, end: usize) -> (q: usize)
    requires
        p <= end <= s@.len(),
    ensures
        q == line_end(s@, p as int, end as int),
        p <= q <= end,
{
    let mut q = p;
    while q < end && (s[q] == '-' || s[q] == '=')
        invariant
            p <= q <= end <= s@.len(),
            line_end(s@, q as int, end as int) == line_end(s@, p as int, end as int),
        decreases end - q,
    {
        q = q + 1;
    }
    q
}

fn dotted(s: &Vec<char>, p: usize, end: usize) -> (r: Option<
    Result<(Connector, usize), (ParseErrorKind, usize)>,
>)
    requires
        p <= end <= s@.len(),
    ensures
        match dotted_at(s@, p as int, end as int) {
            None => r is None,
            Some(x) => r is Some && conn_agrees(r->Some_0, x, p as int, end as int),
        },
{
    let a = arrow(s, p, end, true);
    let q = match a {
        Some(_) => p + 1,
        None => p,
    };
    if !(q < end && s[q] == '-') {
        return None;
    }
    let d = skip_run(s, q + 1, end, '.');
    if d == q + 1 || !(d < end && s[d] == '-') {
        return None;
    }
    let b = arrow(s, d + 1, end, false);
    let e = match b {
        Some(_) => d + 2,
        None => d + 1,
    };
    let dots = d - (q + 1);
    if dots > 0xffff {
        return Some(Err((ParseErrorKind::RankOverflow, p)));
    }
    Some(
        Ok(
            (
                Connector {
                    line_style: LineStyle::Dotted,
                    arrow_start: a,
                    arrow_end: b,
                    rank: dots as u16,
                },
                e,
            ),
        ),
    )
}

fn solid(s: &Vec<char>, p: usize, end: usize) -> (r: Result<(Connector, usize), (ParseErrorKind, usize)>)
    requires
        p <= end <= s@.len(),
    ensures
        conn_agrees(r, solid_at(s@, p as int, end as int), p as int, end as int),
{
    let a = arrow(s, p, end, true);
    let q = match a {
        Some(_) => p + 1,
        None => p,
    };
    let extra: usize = match a {
        Some(_) => 0,
        None => 1,
    };
    let l = skip_line(s, q, end);
    if l - q < extra + 1 {
        return Err((ParseErrorKind::ExpectedConnector, p));
    }
    let m = skip_run(s, q, end, s[q]);
    if m < l {
        return Err((ParseErrorKind::MixedLineStyle, m));
    }
    let count = l - q - extra;
    if count > 0xffff {
        return Err((ParseErrorKind::RankOverflow, p));
    }
    let b = arrow(s, l, end, false);
    let e = match b {
        Some(_) => l + 1,
        None => l,
    };
    let rank = match b {
        Some(_) => count,
        None => count - 1,
    };
    let line_style = if s[q] == '-' {
        LineStyle::Normal
    } else {
        LineStyle::Thick
    };
    Ok((Connector { line_style, arrow_start: a, arrow_end: b, rank: rank as u16 }, e))
}

fn connector(s: &Vec<char>, p: usize, end: usize) -> (r: Result<(Connector, usize), (ParseErrorKind, usize)>)
    requires
        p <= end <= s@.len(),
    ensures
        conn_agrees(r, connector_at(s@, p as int, end as int), p as int, end as int),
{
    match dotted(s, p, end) {
        Some(r) => r,
        None => solid(s, p, end),
    }
}

fn statement(
    input: &str,
    s: &Vec<char>,
    a: usize,
    end: usize,
    ctx: &mut ParseCtx,
    flow: &mut Flowchart,
) -> (r: Result<(), (ParseErrorKind, usize)>)
    requires
        s@ == input@,
        a <= end <= s@.len(),
    ensures
        match statement_at(s@, a as int, end as int, old(flow)@) {
            Ok(m) => r is Ok && final(flow)@ == m,
            Err(f) => r is Err && r->Err_0.0 == f.0 && r->Err_0.1 == f.1 && f.1 <= end,
        },
{
    let p1 = match node_list(input, s, a, end, &mut ctx.left_node_scratch) {
        Err(f) => return Err(f),
        Ok(x) => x,
    };
    let (c, p2) = match connector(s, p1, end) {
        Err(f) => return Err(f),
        Ok(x) => x,
    };
    let p3 = skip_ws(s, p2, end);
    let p4 = match node_list(input, s, p3, end, &mut ctx.right_node_scratch) {
        Err(f) => return Err(f),
        Ok(x) => x,
    };
    proof {
        lemma_register_failure_bound(flow@, mentions_view(ctx.left_node_scratch@), 0, end as int);
    }
    match flow.add_nodes(&ctx.left_node_scratch) {
        Err(f) => return Err(f),
        Ok(()) => {},
    }
    proof {
        lemma_register_failure_bound(flow@, mentions_view(ctx.right_node_scratch@), 0, end as int);
    }
    match flow.add_nodes(&ctx.right_node_scratch) {
        Err(f) => return Err(f),
        Ok(()) => {},
    }
    proof {
        lemma_connect_failure_pos(
            flow@,
            mentions_view(ctx.left_node_scratch@),
            mentions_view(ctx.right_node_scratch@),
            c,
            p1 as int,
            0,
        );
    }
    match flow.add_edges(&ctx.left_node_scratch, &ctx.right_node_scratch, c, p1) {
        Err(f) => return Err(f),
        Ok(()) => {},
    }
    let mut p = p4;
    while p < end
        invariant
            s@ == input@,
            a <= p <= end <= s@.len(),
            statement_at(s@, a as int, end as int, old(flow)@) == chain_at(
                s@,
                p as int,
                end as int,
                flow@,
                mentions_view(ctx.right_node_scratch@),
            ),
        decreases end - p,
    {
        std::mem::swap(&mut ctx.left_node_scratch, &mut ctx.right_node_scratch);
        let (c, p2) = match connector(s, p, end) {
            Err(f) => return Err(f),
            Ok(x) => x,
        };
        let p3 = skip_ws(s, p2, end);
        let p4 = match node_list(input, s, p3, end, &mut ctx.right_node_scratch) {
            Err(f) => return Err(f),
            Ok(x) => x,
        };
        proof {
            lemma_register_failure_bound(flow@, mentions_view(ctx.right_node_scratch@), 0, end as int);
        }
        match flow.add_nodes(&ctx.right_node_scratch) {
            Err(f) => return Err(f),
            Ok(()) => {},
        }
        proof {
            lemma_connect_failure_pos(
                flow@,
                mentions_view(ctx.left_node_scratch@),
                mentions_view(ctx.right_node_scratch@),
                c,
                p as int,
                0,
            );
        }
        match flow.add_edges(&ctx.left_node_scratch, &ctx.right_node_scratch, c, p) {
            Err(f) => return Err(f),
            Ok(()) => {},
        }
        p = p4;
    }
    Ok(())
}

fn direction(s: &Vec<char>, p: usize, end: usize) -> (r: Option<(Direction, usize)>)
    requires
        p <= end <= s@.len(),
    ensures
        match direction_at(s@, p as int, end as int) {
            Some((d, e)) => r == Some((d, e as usize)) && e <= end,
            None => r is None,
        },
{
    if lit_here(s, p, end, "TB") {
        Some((Direction::TopBottom, p + "TB".unicode_len()))
    } else if lit_here(s, p, end, "TD") {
        Some((Direction::TopBottom, p + "TD".unicode_len()))
    } else if lit_here(s, p, end, "BT") {
        Some((Direction::BottomTop, p + "BT".unicode_len()))
    } else if lit_here(s, p, end, "RL") {
        Some((Direction::RightLeft, p + "RL".unicode_len()))
    } else if lit_here(s, p, end, "LR") {
        Some((Direction::LeftRight, p + "LR".unicode_len()))
    } else {
        None
    }
}

/// Parse the text of a flowchart.
///
/// Fails with an error located at the first place where the text leaves the grammar, or where a
/// statement would declare a node twice or join two nodes twice in the same direction.
pub fn parse_flowchart(input: &str) -> (r: Result<Flowchart, ParseError>)
    requires
        input@.len() <= crate::MAX_INPUT_CHARS,
    ensures
        flowchart_outcome(input@, r),
{
    let s = chars_of(input);
    let n = s.len();
    let p0 = skip_ws(&s, 0, n);
    if !lit_here(&s, p0, n, "flowchart") {
        return Err(ParseError::at(&s, p0, ParseErrorKind::ExpectedLiteral("flowchart")));
    }
    let p1 = skip_ws(&s, p0 + "flowchart".unicode_len(), n);
    let (dir, p2) = match direction(&s, p1, n) {
        None => return Err(ParseError::at(&s, p1, ParseErrorKind::ExpectedDirection)),
        Some(x) => x,
    };
    let mut flow = Flowchart::new(dir);
    let mut ctx = ParseCtx::new();
    let mut start = p2;
    loop
        invariant
            s@ == input@,
            n == s@.len() <= crate::MAX_INPUT_CHARS,
            start <= n,
            flowchart_grammar(s@) == lines_from(s@, start as int, n as int, flow@),
        decreases n - start,
    {
        let nl = find_char(&s, start, n, '\n');
        let (a, b) = trim_range(&s, start, nl);
        if a < b {
            match statement(input, &s, a, b, &mut ctx, &mut flow) {
                Err((k, e)) => return Err(ParseError::at(&s, e, k)),
                Ok(()) => {},
            }
        }
        if nl < n {
            start = nl + 1;
        } else {
            return Ok(flow);
        }
    }
}

/// Parsing is a function of the text: two parses of the same text give flowcharts with equal
/// content, or equal errors.
pub proof fn lemma_flowchart_parse_deterministic(
    s: Seq<char>,
    r1: Result<Flowchart, ParseError>,
    r2: Result<Flowchart, ParseError>,
)
    requires
        flowchart_outcome(s, r1),
        flowchart_outcome(s, r2),
    ensures
        r1 is Ok <==> r2 is Ok,
        r1 is Ok ==> r1->Ok_0@ == r2->Ok_0@,
        r1 is Err ==> r1->Err_0 == r2->Err_0,
{
}

proof fn lemma_line_end_chars(s: Seq<char>, q: int, end: int, k: int)
    requires
        0 <= q <= k < line_end(s, q, end),
    ensures
        s[k] == '-' || s[k] == '=',
        line_end(s, q, end) <= end,
    decreases end - q,
{
    if q < k {
        lemma_line_end_chars(s, q + 1, end, k);
    } else if q + 1 <= end {
        lemma_line_end_bound(s, q + 1, end);
    }
}

proof fn lemma_line_end_bound(s: Seq<char>, q: int, end: int)
    requires
        q <= end,
    ensures
        q <= line_end(s, q, end) <= end,
    decreases end - q,
{
    if 0 <= q < end && (s[q] == '-' || s[q] == '=') {
        lemma_line_end_bound(s, q + 1, end);
    }
}

proof fn lemma_run_end_stops(s: Seq<char>, q: int, end: int, c: char, k: int)
    requires
        q <= k < end,
        s[k] != c,
    ensures
        run_end(s, q, end, c) <= k,
    decreases k - q,
{
    if q < k && s[q] == c {
        lemma_run_end_stops(s, q + 1, end, c, k);
    }
}

/// A connector whose line holds both `-` and `=` is rejected as mixing line styles, whatever
/// heads it has. `i` and `j` are positions of the two characters in the run of line characters
/// that follows the optional leading head.
pub proof fn lemma_mixed_line_rejected(s: Seq<char>, p: int, end: int, i: int, j: int)
    requires
        0 <= p <= end <= s.len(),
        ({
            let q = if arrow_at(s, p, end, true) is Some {
                p + 1
            } else {
                p
            };
            &&& q <= i < line_end(s, q, end)
            &&& q <= j < line_end(s, q, end)
        }),
        s[i] == '-',
        s[j] == '=',
    ensures
        connector_at(s, p, end) is Err,
        connector_at(s, p, end)->Err_0.0 == ParseErrorKind::MixedLineStyle,
{
    let q = if arrow_at(s, p, end, true) is Some {
        p + 1
    } else {
        p
    };
    let l = line_end(s, q, end);
    lemma_line_end_chars(s, q, end, i);
    lemma_line_end_chars(s, q, end, q);
    let lo = if i < j {
        i
    } else {
        j
    };
    let hi = if i < j {
        j
    } else {
        i
    };
    assert(q <= lo < hi < l);
    lemma_line_end_chars(s, q, end, q + 1);
    assert(s[q + 1] != '.');
    assert(run_end(s, q + 1, end, '.') == q + 1);
    if s[q] == '-' {
        lemma_run_end_stops(s, q, end, s[q], j);
    } else {
        lemma_run_end_stops(s, q, end, s[q], i);
    }
}

impl Flowchart {
    /// Parse the text of a flowchart (see [`parse_flowchart`]).
    pub fn parse(input: &str) -> (r: Result<Flowchart, ParseError>)
        requires
            input@.len() <= crate::MAX_INPUT_CHARS,
        ensures
            flowchart_outcome(input@, r),
    {
        parse_flowchart(input)
    }
}

} // verus!
