use bluemetal::span::{Span, Spanning, Spans};

#[test]
fn span_reports_start_length_and_end() {
    let span = Span(2, 3);
    assert_eq!(span.start(), 2);
    assert_eq!(span.length(), 3);
    assert_eq!(span.end(), 5);
}

#[test]
fn empty_span_ends_where_it_starts() {
    assert_eq!(Span(7, 0).end(), 7);
}

#[test]
fn combine_runs_from_first_start_to_last_end() {
    let open = Span(2, 3);
    let close = Span(10, 4);
    assert_eq!(open.combine(close), Span(2, 12));
}

#[test]
fn combine_is_not_commutative() {
    let a = Span(0, 5);
    let b = Span(3, 10);
    assert_eq!(a.combine(b), Span(0, 13));
    assert_eq!(b.combine(a), Span(3, 2));
    assert_ne!(a.combine(b), b.combine(a));
}

#[test]
fn combine_is_no_difference_of_lengths() {
    let a = Span(4, 1);
    let b = Span(9, 1);
    let merged = a.combine(b);
    assert_eq!(merged.start(), 4);
    assert_eq!(merged.end(), 10);
    assert_eq!(merged.length(), 6);
}

#[test]
fn combine_of_a_span_with_itself_is_that_span() {
    let a = Span(5, 4);
    assert_eq!(a.combine(a), a);
}

#[test]
fn spanning_hands_out_its_span() {
    let value = Spanning(Span(1, 2), String::from("ab"));
    assert_eq!(value.span(), Span(1, 2));
    assert_eq!(value.1, "ab");
}
