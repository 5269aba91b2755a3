use mermaid::flowchart::{
    ArrowStyle, Connector, Direction, LineStyle, Node, NodeStyle, ParseError, ParseErrorKind,
};
use mermaid::{parse_flowchart, Flowchart};

fn chart(src: &str) -> Flowchart {
    match Flowchart::parse(src) {
        Ok(f) => f,
        Err(e) => panic!("unexpected error {:?}", e),
    }
}

fn err(src: &str) -> ParseError {
    match parse_flowchart(src) {
        Ok(f) => panic!("expected an error, got {} nodes", f.nodes.len()),
        Err(e) => e,
    }
}

fn node<'a>(f: &'a Flowchart, id: &str) -> &'a Node {
    f.node(id).unwrap()
}

fn edge(f: &Flowchart, from: &str, to: &str) -> Connector {
    f.edge(from, to).unwrap()
}

#[test]
fn two_edges_from_one_node() {
    let f = chart("flowchart TB\nA --> C\nA --> D");
    assert!(matches!(f.direction, Direction::TopBottom));
    let ids: Vec<&str> = f.nodes.iter().map(|n| n.id.as_str()).collect();
    assert_eq!(ids, vec!["A", "C", "D"]);
    for n in &f.nodes {
        assert_eq!(n.style, NodeStyle::Square);
        assert_eq!(n.label, "");
    }
    assert_eq!(f.edges().len(), 2);
    let expected = Connector {
        line_style: LineStyle::Normal,
        arrow_start: None,
        arrow_end: Some(ArrowStyle::Arrow),
        rank: 1,
    };
    assert_eq!(edge(&f, "A", "C"), expected);
    assert_eq!(edge(&f, "A", "D"), expected);
    assert_eq!(f.edge("C", "A"), None);
}

#[test]
fn rank_follows_dash_count() {
    let f = chart("flowchart LR\nA ---> B");
    assert_eq!(edge(&f, "A", "B").rank, 2);
    let f = chart("flowchart LR\nA --- B");
    let c = edge(&f, "A", "B");
    assert_eq!(c.rank, 1);
    assert_eq!(c.arrow_end, None);
    assert_eq!(c.line_style, LineStyle::Normal);
}

#[test]
fn subroutine_label_and_fan_out() {
    let f = chart("flowchart TB\nA[[ text ]] ----> C & D");
    let a = node(&f, "A");
    assert_eq!(a.style, NodeStyle::Subroutine);
    assert_eq!(a.label, " text ");
    assert_eq!(f.edges().len(), 2);
    assert_eq!(edge(&f, "A", "C").rank, 3);
    assert_eq!(edge(&f, "A", "D").rank, 3);
}

#[test]
fn redeclared_node_is_rejected() {
    let e = err("flowchart TB\nA[one] --> B\nA(two) --> C");
    assert_eq!(e.kind, ParseErrorKind::DuplicateNode);
    assert_eq!((e.line, e.col, e.offset), (3, 1, 26));
    let e = err("flowchart TB\nA --> B\nA[x] --> C");
    assert_eq!(e.kind, ParseErrorKind::DuplicateNode);
}

#[test]
fn bare_mention_after_declaration_is_kept() {
    let f = chart("flowchart TB\nA[one] --> B\nA --> C");
    assert_eq!(node(&f, "A").label, "one");
    assert_eq!(f.nodes.len(), 3);
}

#[test]
fn mixed_line_is_rejected() {
    let e = err("flowchart TB\nA -=-> B");
    assert_eq!(e.kind, ParseErrorKind::MixedLineStyle);
    assert_eq!((e.line, e.col, e.offset), (2, 4, 16));
    let e = err("flowchart TB\nA ==-- B");
    assert_eq!(e.kind, ParseErrorKind::MixedLineStyle);
}

#[test]
fn parsing_flowchart_twice_gives_equal_charts() {
    let src = "flowchart LR\nA[start] --> B{choice} -.-> C & D\nD ==> A";
    let a = chart(src);
    let b = chart(src);
    assert!(matches!((a.direction, b.direction), (Direction::LeftRight, Direction::LeftRight)));
    let na: Vec<(String, String, NodeStyle)> =
        a.nodes.iter().map(|n| (n.id.clone(), n.label.clone(), n.style)).collect();
    let nb: Vec<(String, String, NodeStyle)> =
        b.nodes.iter().map(|n| (n.id.clone(), n.label.clone(), n.style)).collect();
    assert_eq!(na, nb);
    let mut ea = a.edges();
    let mut eb = b.edges();
    ea.sort_by_key(|e| (e.0, e.1));
    eb.sort_by_key(|e| (e.0, e.1));
    assert_eq!(ea, eb);
    assert_eq!(ea.len(), 4);
}

#[test]
fn example_flowchart() {
    let f = chart(
        r#"
        flowchart TB
            A[[ Some "inner quotes" text ]] ----> C & D === B[ "quoted )) text"]
            B <=x C
    "#,
    );
    let a = node(&f, "A");
    assert_eq!(a.style, NodeStyle::Subroutine);
    assert_eq!(a.label, r#" Some "inner quotes" text "#);
    let b = node(&f, "B");
    assert_eq!(b.style, NodeStyle::Square);
    assert_eq!(b.label, "quoted )) text");
    assert_eq!(f.edges().len(), 5);
    let thick = edge(&f, "D", "B");
    assert_eq!(thick.line_style, LineStyle::Thick);
    assert_eq!(thick.rank, 1);
    assert_eq!(thick.arrow_end, None);
    let back = edge(&f, "B", "C");
    assert_eq!(back.line_style, LineStyle::Thick);
    assert_eq!(back.arrow_start, Some(ArrowStyle::Arrow));
    assert_eq!(back.arrow_end, Some(ArrowStyle::Cross));
    assert_eq!(back.rank, 1);
}

#[test]
fn every_shape() {
    let cases = [
        ("A[x]", NodeStyle::Square),
        ("A(x)", NodeStyle::Round),
        ("A([x])", NodeStyle::Stadium),
        ("A[[x]]", NodeStyle::Subroutine),
        ("A[(x)]", NodeStyle::Cylinder),
        ("A((x))", NodeStyle::Circle),
        ("A>x]", NodeStyle::Asymmetric),
        ("A{x}", NodeStyle::Rhombus),
        ("A{{x}}", NodeStyle::Hexagon),
        ("A[/x/]", NodeStyle::Parallelogram),
        ("A[/x\\]", NodeStyle::Trapezoid),
        ("A[\\x\\]", NodeStyle::ParallelogramRev),
        ("A[\\x/]", NodeStyle::TrapezoidRev),
        ("A(((x)))", NodeStyle::DoubleCircle),
    ];
    for (text, style) in cases {
        let f = chart(&format!("flowchart TB\n{} --> B", text));
        let a = node(&f, "A");
        assert_eq!(a.style, style, "{}", text);
        assert_eq!(a.label, "x", "{}", text);
    }
}

#[test]
fn dotted_connectors() {
    let f = chart("flowchart TB\nA -.-> B\nB <-..-o C\nC -...- D");
    let c = edge(&f, "A", "B");
    assert_eq!(c.line_style, LineStyle::Dotted);
    assert_eq!((c.arrow_start, c.arrow_end, c.rank), (None, Some(ArrowStyle::Arrow), 1));
    let c = edge(&f, "B", "C");
    assert_eq!(c.arrow_start, Some(ArrowStyle::Arrow));
    assert_eq!(c.arrow_end, Some(ArrowStyle::Circle));
    assert_eq!(c.rank, 2);
    let c = edge(&f, "C", "D");
    assert_eq!((c.arrow_start, c.arrow_end, c.rank), (None, None, 3));
}

#[test]
fn heads_on_solid_connectors() {
    let f = chart("flowchart BT\nA o--o B\nB x==> C");
    assert!(matches!(f.direction, Direction::BottomTop));
    let c = edge(&f, "A", "B");
    assert_eq!(c.arrow_start, Some(ArrowStyle::Circle));
    assert_eq!(c.arrow_end, Some(ArrowStyle::Circle));
    assert_eq!(c.rank, 2);
    let c = edge(&f, "B", "C");
    assert_eq!(c.line_style, LineStyle::Thick);
    assert_eq!(c.arrow_start, Some(ArrowStyle::Cross));
    assert_eq!(c.rank, 2);
}

#[test]
fn chains_and_lists() {
    let f = chart("flowchart RL\nA & B --> C & D --> E");
    assert!(matches!(f.direction, Direction::RightLeft));
    assert_eq!(f.edges().len(), 6);
    for (from, to) in [("A", "C"), ("A", "D"), ("B", "C"), ("B", "D"), ("C", "E"), ("D", "E")] {
        assert!(f.edge(from, to).is_some(), "{} -> {}", from, to);
    }
    assert!(f.edge("A", "E").is_none());
}

#[test]
fn td_means_top_to_bottom_and_blank_lines_are_skipped() {
    let f = chart("  flowchart TD\n\n   A --> B   \r\n\t\n");
    assert!(matches!(f.direction, Direction::TopBottom));
    assert_eq!(f.nodes.len(), 2);
}

#[test]
fn self_edge_is_allowed() {
    let f = chart("flowchart TB\nA --> A");
    assert_eq!(f.nodes.len(), 1);
    assert!(f.edge("A", "A").is_some());
}

#[test]
fn duplicate_edge_is_rejected() {
    let e = err("flowchart TB\nA --> B\nA ==> B");
    assert_eq!(e.kind, ParseErrorKind::DuplicateEdge);
    assert_eq!((e.line, e.col, e.offset), (3, 3, 23));
}

#[test]
fn header_errors() {
    let e = err("graph TB\nA --> B");
    assert_eq!(e.kind, ParseErrorKind::ExpectedLiteral("flowchart"));
    assert_eq!(e.offset, 0);
    let e = err("flowchart XY\nA --> B");
    assert_eq!(e.kind, ParseErrorKind::ExpectedDirection);
    assert_eq!((e.line, e.col, e.offset), (1, 11, 10));
}

#[test]
fn node_errors() {
    assert_eq!(err("flowchart TB\nA[abc --> B").kind, ParseErrorKind::UnclosedNode);
    assert_eq!(err("flowchart TB\nA[\"abc --> B").kind, ParseErrorKind::UnclosedQuote);
    let e = err("flowchart TB\nA[\"abc\") --> B");
    assert_eq!(e.kind, ParseErrorKind::UnmatchedShape);
    assert_eq!(e.offset, 20);
    assert_eq!(err("flowchart TB\nA -->").kind, ParseErrorKind::ExpectedIdent);
    assert_eq!(err("flowchart TB\nA B").kind, ParseErrorKind::ExpectedConnector);
    assert_eq!(err("flowchart TB\nA --> B C").kind, ParseErrorKind::ExpectedConnector);
}

#[test]
fn rank_that_does_not_fit_is_rejected() {
    let src = format!("flowchart TB\nA {}> B", "-".repeat(70_000));
    assert_eq!(err(&src).kind, ParseErrorKind::RankOverflow);
    let src = format!("flowchart TB\nA -{}- B", ".".repeat(70_000));
    assert_eq!(err(&src).kind, ParseErrorKind::RankOverflow);
}

#[test]
fn label_or_id_falls_back_to_id() {
    let f = chart("flowchart TB\nA[Start] --> B");
    assert_eq!(node(&f, "A").label_or_id(), "Start");
    assert_eq!(node(&f, "B").label_or_id(), "B");
    assert!(!node(&f, "A").is_id());
    assert!(node(&f, "B").is_id());
    assert_eq!(f.find("B"), Some(1));
    assert_eq!(f.find("Z"), None);
}

#[test]
fn non_ascii_labels() {
    let f = chart("flowchart TB\nA[héllo wörld] --> B");
    assert_eq!(node(&f, "A").label, "héllo wörld");
}
