use bluemetal::error::ParseError;
use bluemetal::qualifier::Qualifier;
use bluemetal::span::{Span, Spans};

#[test]
fn qualifier_value_extraction() {
    let mut from = "layout|packed|";
    let mut pos = 0;
    let qualifier = Qualifier::parse(&mut from, &mut pos).unwrap();
    assert_eq!(qualifier.name().as_str(), "layout");
    assert_eq!(qualifier.value().unwrap().1, "packed");
    assert_eq!(from, "");
}

#[test]
fn qualifier_value_is_trimmed() {
    let mut from = "layout|  packed\t|rest";
    let mut pos = 0;
    let qualifier = Qualifier::parse(&mut from, &mut pos).unwrap();
    assert_eq!(qualifier.value().unwrap().1, "packed");
    assert_eq!(from, "rest");
}

#[test]
fn qualifier_value_keeps_inner_whitespace_and_escapes() {
    let mut from = "doc| a \\n  b |";
    let mut pos = 0;
    let qualifier = Qualifier::parse(&mut from, &mut pos).unwrap();
    assert_eq!(qualifier.value().unwrap().1, "a \\n  b");
}

#[test]
fn qualifier_value_may_be_empty() {
    let mut from = "fn|| foo";
    let mut pos = 0;
    let qualifier = Qualifier::parse(&mut from, &mut pos).unwrap();
    assert_eq!(qualifier.name().as_str(), "fn");
    assert_eq!(qualifier.value().unwrap().1, "");
    assert_eq!(qualifier.value().unwrap().span(), Span(2, 1));
    assert_eq!(from, " foo");
    assert_eq!(pos, 4);
}

#[test]
fn qualifier_without_value() {
    let mut from = "  fn foo";
    let mut pos = 0;
    let qualifier = Qualifier::parse(&mut from, &mut pos).unwrap();
    assert_eq!(qualifier.name().as_str(), "fn");
    assert!(qualifier.value().is_none());
    assert_eq!(qualifier.span(), Span(2, 2));
    assert_eq!(from, "foo");
    assert_eq!(pos, 5);
}

#[test]
fn qualifier_spans_count_characters() {
    let mut from = "\u{a0}layout \u{3000}| p\u{e9} |x";
    let mut pos = 0;
    let qualifier = Qualifier::parse(&mut from, &mut pos).unwrap();
    assert_eq!(qualifier.span(), Span(1, 6));
    let value = qualifier.value().unwrap();
    assert_eq!(value.1, "p\u{e9}");
    assert_eq!(value.span(), Span(9, 5));
    assert_eq!(from, "x");
    assert_eq!(pos, 15);
}

#[test]
fn cursor_behind_a_value_counts_both_bars() {
    let mut from = "layout|packed|";
    let mut pos = 0;
    let qualifier = Qualifier::parse(&mut from, &mut pos).unwrap();
    assert_eq!(qualifier.span(), Span(0, 6));
    assert_eq!(qualifier.value().unwrap().span(), Span(6, 7));
    assert_eq!(pos, 14);
}

#[test]
fn qualifier_missing_closing_bar() {
    let mut from = "layout|packed";
    let mut pos = 0;
    match Qualifier::parse(&mut from, &mut pos) {
        Err(ParseError::ExpectedSymbol(symbol, at)) => {
            assert_eq!(symbol, "|");
            assert_eq!(at, 7);
        }
        _ => panic!("an open value must be refused"),
    }
    assert_eq!(from, "packed");
    assert_eq!(pos, 7);
}

#[test]
fn qualifier_needs_an_identifier() {
    let mut from = "  |packed|";
    let mut pos = 0;
    match Qualifier::parse(&mut from, &mut pos) {
        Err(ParseError::ExpectedIdentifier(at)) => assert_eq!(at, 2),
        _ => panic!("a value without a name must be refused"),
    }
    assert_eq!(from, "|packed|");
}

#[test]
fn named_qualifier_has_no_value() {
    let qualifier = Qualifier::named("struct");
    assert_eq!(qualifier.name().as_str(), "struct");
    assert!(qualifier.value().is_none());
    assert_eq!(qualifier.span(), Span(0, 0));
}

#[test]
fn qualifiers_are_equal_by_name_alone() {
    let mut from = "layout|packed| layout|loose| align|packed|";
    let mut pos = 0;
    let first = Qualifier::parse(&mut from, &mut pos).unwrap();
    let second = Qualifier::parse(&mut from, &mut pos).unwrap();
    let third = Qualifier::parse(&mut from, &mut pos).unwrap();
    assert!(first == second);
    assert!(first != third);
    assert!(first == Qualifier::named("layout"));
}

#[test]
fn cloned_qualifier_keeps_name_value_and_spans() {
    let mut from = " layout|packed|";
    let mut pos = 0;
    let qualifier = Qualifier::parse(&mut from, &mut pos).unwrap();
    let copy = qualifier.clone();
    assert_eq!(copy.name().as_str(), "layout");
    assert_eq!(copy.span(), Span(1, 6));
    assert_eq!(copy.value().unwrap().1, "packed");
    assert_eq!(copy.value().unwrap().span(), Span(7, 7));
}
