use mermaid::pie::{Datum, Error, ErrorKind};
use mermaid::{parse_pie, Pie};

fn value(d: &Datum) -> f64 {
    d.value.parse::<f64>().unwrap()
}

fn err(src: &str) -> Error {
    match Pie::parse(src) {
        Ok(p) => panic!("expected an error, got {:?}", p),
        Err(e) => e,
    }
}

#[test]
fn header_with_show_data_and_title() {
    let pie = Pie::parse("pie showData title My Title\n\"A\": 1\n\"B\": 2").unwrap();
    assert!(pie.show_data);
    assert_eq!(pie.title.as_deref(), Some("My Title"));
    assert_eq!(pie.data.len(), 2);
    assert_eq!(pie.data[0].label, "A");
    assert_eq!(value(&pie.data[0]), 1.0);
    assert_eq!(pie.data[1].label, "B");
    assert_eq!(value(&pie.data[1]), 2.0);
}

#[test]
fn header_without_flag_or_title() {
    let pie = Pie::parse("pie\n\"A\": 1").unwrap();
    assert!(!pie.show_data);
    assert_eq!(pie.title, None);
    assert_eq!(pie.data.len(), 1);
}

#[test]
fn data_keep_source_order_and_text() {
    let src = "pie\n\"Calcium\": 42.96\n\"Potassium and more\": 50.05\n\" \": -1e3\n\"x\": .5\n\"y\": 5.";
    let pie = parse_pie(src).unwrap();
    let labels: Vec<&str> = pie.data.iter().map(|d| d.label.as_str()).collect();
    assert_eq!(labels, vec!["Calcium", "Potassium and more", " ", "x", "y"]);
    let values: Vec<&str> = pie.data.iter().map(|d| d.value.as_str()).collect();
    assert_eq!(values, vec!["42.96", "50.05", "-1e3", ".5", "5."]);
    assert_eq!(value(&pie.data[0]), 42.96);
    assert_eq!(value(&pie.data[2]), -1000.0);
    assert_eq!(value(&pie.data[3]), 0.5);
    assert_eq!(value(&pie.data[4]), 5.0);
}

#[test]
fn example_pie_chart() {
    let src = r#"
pie showData
    title Key elements in Product X
    "Calcium" : 42.96
    "Potassium" : 50.05
    "Magnesium" : 10.01
    "Iron" :  5
    "#;
    let pie = Pie::parse(src).unwrap();
    assert!(pie.show_data);
    assert_eq!(pie.title.as_deref(), Some("Key elements in Product X"));
    assert_eq!(pie.data.len(), 4);
    assert_eq!(pie.data[3].label, "Iron");
    assert_eq!(value(&pie.data[3]), 5.0);
}

#[test]
fn empty_title_is_kept() {
    let pie = Pie::parse("pie title   \"A\": 3").unwrap();
    assert_eq!(pie.title.as_deref(), Some(""));
    assert_eq!(value(&pie.data[0]), 3.0);
}

#[test]
fn no_data_points_is_an_error() {
    let e = err("pie");
    assert_eq!(*e.kind(), ErrorKind::ExpectedLiteral("\""));
    assert_eq!((e.line, e.col, e.offset), (1, 4, 3));
    let e = err("pie showData title T\n   ");
    assert_eq!(e.kind, ErrorKind::SearchLiteral("\""));
    let e = err("pie showData\n  \n");
    assert_eq!(e.kind, ErrorKind::ExpectedLiteral("\""));
}

#[test]
fn missing_keyword() {
    let e = err("  pi \"A\": 1");
    assert_eq!(e.kind, ErrorKind::ExpectedLiteral("pie"));
    assert_eq!((e.line, e.col, e.offset), (1, 3, 2));
}

#[test]
fn unclosed_quote() {
    let e = err("pie\n\"abc: 1");
    assert_eq!(e.kind, ErrorKind::UnclosedQuote("\""));
    assert_eq!((e.line, e.col, e.offset), (2, 2, 5));
}

#[test]
fn missing_colon() {
    let e = err("pie\n\"a\" 1");
    assert_eq!(e.kind, ErrorKind::ExpectedLiteral(":"));
    assert_eq!((e.line, e.col, e.offset), (2, 5, 8));
}

#[test]
fn missing_number() {
    let e = err("pie\n\"a\": x");
    assert_eq!(e.kind, ErrorKind::ExpectedFloat);
    assert_eq!((e.line, e.col, e.offset), (2, 6, 9));
}

#[test]
fn exponent_without_digits() {
    let e = err("pie\n\"a\": 1e+");
    assert_eq!(e.kind, ErrorKind::ExpectedFloat);
    assert_eq!(e.offset, 12);
}

#[test]
fn location_counts_bytes() {
    let e = err("pie\n\"é\": x");
    assert_eq!(e.kind, ErrorKind::ExpectedFloat);
    assert_eq!((e.line, e.col, e.offset), (2, 7, 10));
}

#[test]
fn title_without_quote_after_it() {
    let e = err("pie title abc");
    assert_eq!(e.kind, ErrorKind::SearchLiteral("\""));
    assert_eq!(e.offset, 9);
}

#[test]
fn trailing_input() {
    let e = err("pie\n\"a\": 1\n\"b\": 2 junk");
    assert_eq!(e.kind, ErrorKind::UnexpectedTrailing);
    assert_eq!((e.line, e.col, e.offset), (3, 8, 18));
}

#[test]
fn parsing_pie_twice_gives_equal_charts() {
    let src = "pie showData title T\n\"A\": 1\n\"B\": 2.5";
    let a = Pie::parse(src).unwrap();
    let b = Pie::parse(src).unwrap();
    assert_eq!(a.title, b.title);
    assert_eq!(a.show_data, b.show_data);
    let da: Vec<(String, String)> = a.data.iter().map(|d| (d.label.clone(), d.value.clone())).collect();
    let db: Vec<(String, String)> = b.data.iter().map(|d| (d.label.clone(), d.value.clone())).collect();
    assert_eq!(da, db);
}
