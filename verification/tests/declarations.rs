use bluemetal::binding::TypedBinding;
use bluemetal::block::Block;
use bluemetal::datatype::DataType;
use bluemetal::error::ParseError;
use bluemetal::function::Function;
use bluemetal::qualifier::Qualifier;
use bluemetal::span::{Span, Spans};
use bluemetal::structure::Structure;
use vstd::hash_map::StringHashMap;

fn pending(names: &[&str]) -> StringHashMap<Qualifier> {
    let mut qualifiers = StringHashMap::new();
    for name in names {
        qualifiers.insert(name.to_string(), Qualifier::named(name));
    }
    qualifiers
}

fn function(text: &str) -> Result<Function, ParseError> {
    let mut from = text;
    let mut pos = 0;
    Function::parse(pending(&["fn"]), &mut from, &mut pos)
}

fn structure(text: &str) -> Result<Structure, ParseError> {
    let mut from = text;
    let mut pos = 0;
    Structure::parse(pending(&["struct"]), &mut from, &mut pos)
}

#[test]
fn typed_binding_reads_name_and_type() {
    let mut from = " count : *uint32 ,";
    let mut pos = 0;
    let binding = TypedBinding::parse(&mut from, &mut pos).unwrap();
    assert_eq!(binding.name().as_str(), "count");
    assert_eq!(binding.name().span(), Span(1, 5));
    assert_eq!(binding.datatype().to_string(), "*uint32");
    assert_eq!(from, ",");
    assert_eq!(pos, 17);
    assert_eq!(binding.to_string(), "count: *uint32");
}

#[test]
fn typed_binding_needs_a_colon() {
    let mut from = "count uint32";
    let mut pos = 0;
    match TypedBinding::parse(&mut from, &mut pos) {
        Err(ParseError::ExpectedSymbol(symbol, at)) => {
            assert_eq!(symbol, ":");
            assert_eq!(at, 6);
        }
        _ => panic!("a binding needs a colon"),
    }
    assert_eq!(from, "uint32");
    assert_eq!(pos, 6);
}

#[test]
fn typed_binding_needs_a_known_type() {
    let mut from = "x: float)";
    let mut pos = 0;
    assert!(matches!(TypedBinding::parse(&mut from, &mut pos), Err(ParseError::UnknownType)));
    assert_eq!(from, ")");
}

#[test]
fn typed_binding_needs_a_name() {
    let mut from = " : int";
    let mut pos = 0;
    match TypedBinding::parse(&mut from, &mut pos) {
        Err(ParseError::ExpectedIdentifier(at)) => assert_eq!(at, 1),
        _ => panic!("a binding needs a name"),
    }
}

#[test]
fn binding_list_reads_all_bindings() {
    let mut from = "a: int, b: *uint8 ,c:&int16)";
    let mut pos = 0;
    let list = TypedBinding::parse_list(&mut from, &mut pos);
    assert_eq!(list.len(), 3);
    assert_eq!(list[0].to_string(), "a: int");
    assert_eq!(list[1].to_string(), "b: *uint8");
    assert_eq!(list[2].to_string(), "c: &int16");
    assert_eq!(from, ")");
    assert_eq!(pos, 27);
}

#[test]
fn binding_list_may_be_empty() {
    let mut from = ")";
    let mut pos = 4;
    let list = TypedBinding::parse_list(&mut from, &mut pos);
    assert!(list.is_empty());
    assert_eq!(from, ")");
    assert_eq!(pos, 4);
}

#[test]
fn binding_list_keeps_what_a_failed_binding_took() {
    let mut from = "a: int, b)";
    let mut pos = 0;
    let list = TypedBinding::parse_list(&mut from, &mut pos);
    assert_eq!(list.len(), 1);
    assert_eq!(from, ")");
    assert_eq!(pos, 9);
}

#[test]
fn block_spans_its_braces() {
    let mut from = " {\n } rest";
    let mut pos = 0;
    let block = Block::parse(&mut from, &mut pos).unwrap();
    assert_eq!(block.open_brace(), Span(1, 1));
    assert_eq!(block.close_brace(), Span(4, 1));
    assert_eq!(block.span(), Span(1, 4));
    assert!(block.expressions().is_empty());
    assert_eq!(from, " rest");
    assert_eq!(pos, 5);
}

#[test]
fn block_body_must_be_empty() {
    let mut from = "{ return }";
    let mut pos = 0;
    match Block::parse(&mut from, &mut pos) {
        Err(ParseError::ExpectedSymbol(symbol, at)) => {
            assert_eq!(symbol, "}");
            assert_eq!(at, 2);
        }
        _ => panic!("a body is not part of the grammar"),
    }
}

#[test]
fn block_needs_an_opening_brace() {
    let mut from = " ;";
    let mut pos = 0;
    match Block::parse(&mut from, &mut pos) {
        Err(ParseError::ExpectedSymbol(symbol, at)) => {
            assert_eq!(symbol, "{");
            assert_eq!(at, 1);
        }
        _ => panic!("a block starts with a brace"),
    }
}

#[test]
fn function_definition() {
    let mut from = " add(a: int, b: int): int {}";
    let mut pos = 2;
    let function = Function::parse(pending(&["fn"]), &mut from, &mut pos).unwrap();
    assert_eq!(function.name().as_str(), "add");
    assert_eq!(function.name().span(), Span(3, 3));
    assert_eq!(function.args().len(), 2);
    assert_eq!(function.args()[0].to_string(), "a: int");
    assert_eq!(function.args()[1].to_string(), "b: int");
    assert_eq!(function.return_type().unwrap().as_str(), "int");
    assert_eq!(function.return_type().unwrap().span(), Span(24, 3));
    let block = function.block().unwrap();
    assert_eq!(block.span(), Span(28, 2));
    assert_eq!(function.fn_qualifier().name().as_str(), "fn");
    assert_eq!(from, "");
    assert_eq!(pos, 30);
}

#[test]
fn function_declaration_has_no_block() {
    let function = function("exit(code: int32);").unwrap();
    assert_eq!(function.name().as_str(), "exit");
    assert_eq!(function.args().len(), 1);
    assert!(function.return_type().is_none());
    assert!(function.block().is_none());
}

#[test]
fn function_without_parameters() {
    let function = function("main ( ) { }").unwrap();
    assert_eq!(function.name().as_str(), "main");
    assert!(function.args().is_empty());
    assert!(function.block().is_some());
}

#[test]
fn function_return_type_is_any_identifier() {
    let function = function("make(): Widget;").unwrap();
    assert_eq!(function.return_type().unwrap().as_str(), "Widget");
}

#[test]
fn function_return_type_needs_an_identifier() {
    match function("make(): *int;") {
        Err(ParseError::ExpectedIdentifier(at)) => assert_eq!(at, 8),
        _ => panic!("a return type is an identifier"),
    }
}

#[test]
fn function_needs_a_name() {
    match function(" (a: int) {}") {
        Err(ParseError::ExpectedIdentifier(at)) => assert_eq!(at, 1),
        _ => panic!("a function needs a name"),
    }
}

#[test]
fn function_needs_a_parameter_list() {
    match function("main {}") {
        Err(ParseError::ExpectedSymbol(symbol, at)) => {
            assert_eq!(symbol, "(");
            assert_eq!(at, 5);
        }
        _ => panic!("a function needs a parameter list"),
    }
}

#[test]
fn function_needs_a_body_or_a_semicolon() {
    match function("main()") {
        Err(ParseError::ExpectedSymbol(symbol, at)) => {
            assert_eq!(symbol, "{");
            assert_eq!(at, 6);
        }
        _ => panic!("a function ends with a block or a semicolon"),
    }
}

#[test]
fn function_span_is_that_of_its_qualifier() {
    let mut qualifiers = StringHashMap::new();
    let mut text = "  fn|C|";
    let mut pos = 0;
    let qualifier = Qualifier::parse(&mut text, &mut pos).unwrap();
    qualifiers.insert("fn".to_string(), qualifier);
    qualifiers.insert("inline".to_string(), Qualifier::named("inline"));
    let mut from = " main();";
    let function = Function::parse(qualifiers, &mut from, &mut pos).unwrap();
    assert_eq!(function.span(), Span(2, 2));
    assert_eq!(function.fn_qualifier().value().unwrap().1, "C");
}

#[test]
fn permissive_list_termination() {
    let function = function("f(a: int, b) {}").unwrap();
    assert_eq!(function.args().len(), 1);
    assert_eq!(function.args()[0].name().as_str(), "a");
    assert!(matches!(function.args()[0].datatype(), DataType::Integer(false)));
}

#[test]
fn permissive_list_termination_on_unknown_type() {
    let function = function("f(a: int, b: float) {}").unwrap();
    assert_eq!(function.args().len(), 1);
    assert_eq!(function.args()[0].name().as_str(), "a");
}

#[test]
fn permissive_list_termination_on_trailing_comma() {
    let function = function("f(a: int,) {}").unwrap();
    assert_eq!(function.args().len(), 1);
}

#[test]
fn permissive_list_termination_on_a_malformed_first_parameter() {
    let function = function("f(a) {}").unwrap();
    assert!(function.args().is_empty());
}

#[test]
fn list_ends_in_front_of_what_a_failed_binding_left() {
    match function("f(a: int, ,) {}") {
        Err(ParseError::ExpectedSymbol(symbol, at)) => {
            assert_eq!(symbol, ")");
            assert_eq!(at, 10);
        }
        _ => panic!("the list ends in front of the second comma"),
    }
}

#[test]
fn structure_definition() {
    let mut from = " Point { x: int32, y: int32 }\n\nfn";
    let mut pos = 6;
    let structure = Structure::parse(pending(&["struct"]), &mut from, &mut pos).unwrap();
    assert_eq!(structure.name().as_str(), "Point");
    assert_eq!(structure.name().span(), Span(7, 5));
    assert_eq!(structure.fields().len(), 2);
    assert_eq!(structure.fields()[0].to_string(), "x: int32");
    assert_eq!(structure.fields()[1].to_string(), "y: int32");
    assert_eq!(structure.end_brace(), Span(34, 1));
    assert_eq!(structure.span(), Span(0, 35));
    assert_eq!(from, "fn");
    assert_eq!(pos, 37);
}

#[test]
fn structure_without_fields() {
    let structure = structure("Empty{}").unwrap();
    assert_eq!(structure.name().as_str(), "Empty");
    assert!(structure.fields().is_empty());
    assert_eq!(structure.end_brace(), Span(6, 1));
}

#[test]
fn structure_fields_end_at_the_first_malformed_one() {
    let structure = structure("S { a: int, b }").unwrap();
    assert_eq!(structure.fields().len(), 1);
    assert_eq!(structure.fields()[0].name().as_str(), "a");
}

#[test]
fn structure_needs_braces() {
    match structure("S;") {
        Err(ParseError::ExpectedSymbol(symbol, at)) => {
            assert_eq!(symbol, "{");
            assert_eq!(at, 1);
        }
        _ => panic!("a structure needs braces"),
    }
    match structure("S { a: int") {
        Err(ParseError::ExpectedSymbol(symbol, at)) => {
            assert_eq!(symbol, "}");
            assert_eq!(at, 10);
        }
        _ => panic!("a structure needs a closing brace"),
    }
}

#[test]
fn structure_needs_a_name() {
    match structure(" {}") {
        Err(ParseError::ExpectedIdentifier(at)) => assert_eq!(at, 1),
        _ => panic!("a structure needs a name"),
    }
}

#[test]
fn structure_span_runs_from_qualifier_to_closing_brace() {
    let mut text = " struct|packed| S {}";
    let mut pos = 0;
    let qualifier = Qualifier::parse(&mut text, &mut pos).unwrap();
    let mut qualifiers = StringHashMap::new();
    qualifiers.insert("struct".to_string(), qualifier);
    let structure = Structure::parse(qualifiers, &mut text, &mut pos).unwrap();
    assert_eq!(structure.struct_qualifier().span(), Span(1, 6));
    assert_eq!(structure.end_brace(), Span(19, 1));
    assert_eq!(structure.span(), Span(1, 19));
}

#[test]
fn structure_renders_with_its_fields() {
    let structure = structure("Point { x: int32, y: *uint8 }").unwrap();
    assert_eq!(structure.to_string(), "struct Point {x: int32, y: *uint8, }");
}

#[test]
fn structure_renders_the_value_of_its_qualifier() {
    let mut text = "struct| packed | S { next: *struct S }";
    let mut pos = 0;
    let qualifier = Qualifier::parse(&mut text, &mut pos).unwrap();
    let mut qualifiers = StringHashMap::new();
    qualifiers.insert("struct".to_string(), qualifier);
    let structure = Structure::parse(qualifiers, &mut text, &mut pos).unwrap();
    assert_eq!(structure.to_string(), "struct|packed| S {next: *[]S, }");
}

#[test]
fn structure_without_fields_renders_empty_braces() {
    assert_eq!(structure("Unit {}").unwrap().to_string(), "struct Unit {}");
}
