use bluemetal::error::ParseError;
use bluemetal::module::Module;
use bluemetal::span::{Span, Spans};
use bluemetal::unit::Unit;

fn parse(text: &str) -> Result<(Vec<String>, Module), ParseError> {
    let mut from = text;
    let mut unit = Unit::default();
    Module::parse(&mut from, &mut unit)
}

fn failure(text: &str) -> ParseError {
    match parse(text) {
        Err(error) => error,
        Ok(_) => panic!("the text must be refused"),
    }
}

#[test]
fn empty_text_is_an_empty_module() {
    let (imports, module) = parse("").unwrap();
    assert!(imports.is_empty());
    assert_eq!(module.functions.len(), 0);
    assert_eq!(module.structures.len(), 0);
}

#[test]
fn default_module_is_empty() {
    let module = Module::default();
    assert!(module.functions.is_empty());
    assert!(module.structures.is_empty());
}

#[test]
fn module_files_declarations_under_their_names() {
    let text = [
        "struct Point { x: int32, y: int32 }",
        "fn origin(): Point;",
        "fn norm(p: &struct Point): uint32 {}",
    ]
    .join("\n");
    let (imports, module) = parse(&text).unwrap();
    assert!(imports.is_empty());
    assert_eq!(module.functions.len(), 2);
    assert_eq!(module.structures.len(), 1);
    let point = module.structures.get("Point").unwrap();
    assert_eq!(point.name().as_str(), "Point");
    assert_eq!(point.fields().len(), 2);
    assert_eq!(point.span(), Span(0, 35));
    let origin = module.functions.get("origin").unwrap();
    assert_eq!(origin.name().as_str(), "origin");
    assert!(origin.block().is_none());
    assert_eq!(origin.return_type().unwrap().as_str(), "Point");
    assert_eq!(origin.span(), Span(36, 2));
    let norm = module.functions.get("norm").unwrap();
    assert_eq!(norm.args().len(), 1);
    assert_eq!(norm.args()[0].to_string(), "p: &[]Point");
    assert!(norm.block().is_some());
    assert_eq!(norm.span(), Span(56, 2));
    assert!(module.functions.get("Point").is_none());
}

#[test]
fn module_consumes_its_whole_text() {
    let mut from = "fn a(); fn b() {}";
    let mut unit = Unit::default();
    assert!(Module::parse(&mut from, &mut unit).is_ok());
    assert_eq!(from, "");
    assert_eq!(unit.len(), 0);
}

#[test]
fn duplicate_function() {
    match failure("fn foo() {} fn foo() {}") {
        ParseError::DuplicateFunction(name, later, earlier) => {
            assert_eq!(name, "foo");
            assert_ne!(later, earlier);
            assert_eq!(earlier, Span(0, 2));
            assert_eq!(later, Span(12, 2));
        }
        _ => panic!("expected a duplicate function"),
    }
}

#[test]
fn duplicate_function_between_declaration_and_definition() {
    match failure("fn foo();fn bar();fn foo() {}") {
        ParseError::DuplicateFunction(name, later, earlier) => {
            assert_eq!(name, "foo");
            assert_eq!(earlier, Span(0, 2));
            assert_eq!(later, Span(18, 2));
        }
        _ => panic!("expected a duplicate function"),
    }
}

#[test]
fn duplicate_structure() {
    match failure("struct A {} struct A {}") {
        ParseError::DuplicateStructure(name, later, earlier) => {
            assert_eq!(name, "A");
            assert_eq!(earlier, Span(0, 11));
            assert_eq!(later, Span(12, 11));
        }
        _ => panic!("expected a duplicate structure"),
    }
}

#[test]
fn function_and_structure_may_share_a_name() {
    let (_, module) = parse("struct foo {} fn foo();").unwrap();
    assert!(module.functions.contains_key("foo"));
    assert!(module.structures.contains_key("foo"));
}

#[test]
fn duplicate_qualifier() {
    match failure("layout|a| layout|b| struct S {}") {
        ParseError::DuplicateQualifier(later, earlier) => {
            assert_eq!(later.name().as_str(), "layout");
            assert_eq!(earlier.name().as_str(), "layout");
            assert_eq!(later.value().unwrap().1, "b");
            assert_eq!(earlier.value().unwrap().1, "a");
            assert_eq!(earlier.span(), Span(0, 6));
            assert_eq!(later.span(), Span(10, 6));
        }
        _ => panic!("expected a duplicate qualifier"),
    }
}

#[test]
fn duplicate_qualifier_comes_before_the_declaration() {
    let mut from = "inline inline fn 9";
    let mut unit = Unit::default();
    match Module::parse(&mut from, &mut unit) {
        Err(ParseError::DuplicateQualifier(later, earlier)) => {
            assert_eq!(earlier.span(), Span(0, 6));
            assert_eq!(later.span(), Span(7, 6));
        }
        _ => panic!("expected a duplicate qualifier"),
    }
    assert_eq!(from, "fn 9");
}

#[test]
fn second_fn_is_taken_for_the_function_name() {
    match failure("fn fn foo() {}") {
        ParseError::ExpectedSymbol(symbol, at) => {
            assert_eq!(symbol, "(");
            assert_eq!(at, 6);
        }
        _ => panic!("the second fn is the name of the function"),
    }
}

#[test]
fn qualifiers_are_cleared_after_a_declaration() {
    let (_, module) = parse("inline fn a();inline fn b();").unwrap();
    assert_eq!(module.functions.len(), 2);
}

#[test]
fn declaration_keeps_its_own_qualifier_only() {
    let (_, module) = parse("export|C| fn|fast| call();").unwrap();
    let call = module.functions.get("call").unwrap();
    assert_eq!(call.fn_qualifier().name().as_str(), "fn");
    assert_eq!(call.fn_qualifier().value().unwrap().1, "fast");
    assert_eq!(call.span(), Span(10, 2));
}

#[test]
fn qualifiers_attached_to_nothing() {
    assert!(matches!(failure("inline"), ParseError::UnexpectedEOF));
    assert!(matches!(failure("fn a();layout|packed|"), ParseError::UnexpectedEOF));
}

#[test]
fn text_of_whitespace_alone_is_refused() {
    match failure("  \n") {
        ParseError::ExpectedIdentifier(at) => assert_eq!(at, 3),
        _ => panic!("expected an identifier"),
    }
}

#[test]
fn whitespace_behind_a_function_is_refused() {
    match failure("fn main() {}\n") {
        ParseError::ExpectedIdentifier(at) => assert_eq!(at, 13),
        _ => panic!("expected an identifier"),
    }
}

#[test]
fn whitespace_behind_a_structure_is_taken() {
    let (_, module) = parse("struct S {}\n\n").unwrap();
    assert_eq!(module.structures.len(), 1);
}

#[test]
fn failure_inside_a_declaration_fails_the_module() {
    match failure("fn ok();fn broken(") {
        ParseError::ExpectedSymbol(symbol, at) => {
            assert_eq!(symbol, ")");
            assert_eq!(at, 18);
        }
        _ => panic!("expected a closing parenthesis"),
    }
    assert!(matches!(failure("struct S { a: int } fn f(): ;"), ParseError::ExpectedIdentifier(28)));
    match failure("layout|packed struct S {}") {
        ParseError::ExpectedSymbol(symbol, at) => {
            assert_eq!(symbol, "|");
            assert_eq!(at, 7);
        }
        _ => panic!("expected a closing bar"),
    }
}

#[test]
fn positions_behind_a_valued_qualifier_stay_aligned() {
    match failure("layout|packed| struct S") {
        ParseError::ExpectedSymbol(symbol, at) => {
            assert_eq!(symbol, "{");
            assert_eq!(at, 23);
        }
        _ => panic!("expected an opening brace"),
    }
}

#[test]
fn positions_count_characters_in_the_whole_module() {
    match failure("\u{3000}fn\u{a0}caf\u{e9}() {}") {
        ParseError::ExpectedSymbol(symbol, at) => {
            assert_eq!(symbol, "(");
            assert_eq!(at, 7);
        }
        _ => panic!("expected an opening parenthesis"),
    }
}

#[test]
fn parsing_leaves_the_unit_alone() {
    let mut unit = Unit::default();
    let mut from = "fn a();";
    assert!(Module::parse(&mut from, &mut unit).is_ok());
    assert_eq!(unit.len(), 0);
    assert!(!unit.contains("a"));
}
