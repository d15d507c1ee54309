use bluemetal::error::ParseError;
use bluemetal::unit::{source_path, Resolver, Unit};

#[test]
fn source_path_replaces_separators_and_appends_the_extension() {
    assert_eq!(source_path("main"), "main.bm");
    assert_eq!(source_path("a::b"), "a/b.bm");
    assert_eq!(source_path("a::b::c_d"), "a/b/c_d.bm");
    assert_eq!(source_path(""), ".bm");
}

#[test]
fn source_path_replaces_from_left_to_right() {
    assert_eq!(source_path(":::"), "/:.bm");
    assert_eq!(source_path("::::"), "//.bm");
    assert_eq!(source_path("a:b"), "a:b.bm");
    assert_eq!(source_path("\u{e9}::x"), "\u{e9}/x.bm");
}

#[test]
fn empty_unit() {
    let unit = Unit::default();
    assert_eq!(unit.len(), 0);
    assert!(!unit.contains("main"));
    assert!(unit.get("main").is_none());
}

#[test]
fn registering_does_nothing() {
    Unit::register_function();
    Unit::register_type();
}

#[test]
fn resolver_asks_for_the_entry_module_first() {
    let mut resolver = Resolver::new("kernel::main");
    let request = resolver.next_request().unwrap().unwrap();
    assert_eq!(request.module, "kernel::main");
    assert_eq!(request.path, "kernel/main.bm");
    assert!(resolver.next_request().unwrap().is_none());
}

#[test]
fn resolver_files_a_module_under_its_name() {
    let mut resolver = Resolver::new("main");
    let request = resolver.next_request().unwrap().unwrap();
    resolver.supply(request.module, "fn main() {}").unwrap();
    assert!(resolver.next_request().unwrap().is_none());
    assert!(resolver.unit().contains("main"));
    let unit = resolver.finish();
    assert_eq!(unit.len(), 1);
    assert!(unit.get("main").unwrap().functions.contains_key("main"));
    assert!(unit["main"].functions.contains_key("main"));
}

#[test]
fn resolver_termination() {
    let mut resolver = Resolver::new("main");
    resolver.enqueue("main".to_string());
    let mut reads = 0;
    let mut steps = 0;
    while let Some(request) = resolver.next_request().unwrap() {
        assert_eq!(request.module, "main");
        reads += 1;
        resolver.supply(request.module, "struct S {}").unwrap();
        steps += 1;
        assert!(steps < 10);
    }
    assert_eq!(reads, 1);
    let unit = resolver.finish();
    assert_eq!(unit.len(), 1);
    assert_eq!(unit["main"].structures.len(), 1);
}

#[test]
fn resolver_terminates_on_mutual_imports() {
    let mut resolver = Resolver::new("a");
    let mut reads: Vec<String> = Vec::new();
    while let Some(request) = resolver.next_request().unwrap() {
        reads.push(request.module.clone());
        let imports = if request.module == "a" { ["b", "a"] } else { ["a", "b"] };
        resolver.supply(request.module, "").unwrap();
        for import in imports {
            resolver.enqueue(import.to_string());
        }
        assert!(reads.len() <= 2);
    }
    assert_eq!(reads, vec!["a".to_string(), "b".to_string()]);
    assert_eq!(resolver.finish().len(), 2);
}

#[test]
fn resolver_is_breadth_first() {
    let mut resolver = Resolver::new("root");
    let mut order: Vec<String> = Vec::new();
    while let Some(request) = resolver.next_request().unwrap() {
        order.push(request.module.clone());
        let imports: &[&str] = match request.module.as_str() {
            "root" => &["left", "right"],
            "left" => &["left::leaf"],
            "right" => &["right::leaf", "left"],
            _ => &[],
        };
        resolver.supply(request.module, "").unwrap();
        for import in imports {
            resolver.enqueue(import.to_string());
        }
    }
    assert_eq!(order, vec!["root", "left", "right", "left::leaf", "right::leaf"]);
    assert_eq!(resolver.finish().len(), 5);
}

#[test]
fn invalid_module_name() {
    let mut resolver = Resolver::new("a.b");
    match resolver.next_request() {
        Err(ParseError::ModuleName(name)) => assert_eq!(name, "a.b"),
        _ => panic!("a name with a dot must be refused"),
    }
    assert_eq!(resolver.finish().len(), 0);
}

#[test]
fn invalid_module_name_behind_a_valid_one() {
    let mut resolver = Resolver::new("main");
    resolver.enqueue("lib.bm".to_string());
    let request = resolver.next_request().unwrap().unwrap();
    resolver.supply(request.module, "").unwrap();
    match resolver.next_request() {
        Err(ParseError::ModuleName(name)) => assert_eq!(name, "lib.bm"),
        _ => panic!("a name with a dot must be refused"),
    }
    assert_eq!(resolver.unit().len(), 1);
}

#[test]
fn module_that_is_present_is_not_parsed_again() {
    let mut resolver = Resolver::new("main");
    let request = resolver.next_request().unwrap().unwrap();
    resolver.supply(request.module, "fn first();").unwrap();
    resolver.supply("main".to_string(), "this does not parse, and is never read").unwrap();
    let unit = resolver.finish();
    assert_eq!(unit.len(), 1);
    assert!(unit["main"].functions.contains_key("first"));
}

#[test]
fn parse_failure_fails_the_resolution_and_files_nothing() {
    let mut resolver = Resolver::new("main");
    let request = resolver.next_request().unwrap().unwrap();
    match resolver.supply(request.module, "fn main(") {
        Err(ParseError::ExpectedSymbol(symbol, at)) => {
            assert_eq!(symbol, ")");
            assert_eq!(at, 8);
        }
        _ => panic!("the module does not parse"),
    }
    assert_eq!(resolver.unit().len(), 0);
}

#[test]
fn io_failure_becomes_a_parse_error() {
    let failure = std::io::Error::new(std::io::ErrorKind::NotFound, "no such module");
    match ParseError::from(failure) {
        ParseError::Io(inner) => assert_eq!(inner.kind(), std::io::ErrorKind::NotFound),
        _ => panic!("expected an input or output failure"),
    }
}
