use tauri_bindgen::ast::{FlagsField, Function, Interface, Type, TypeDef, TypeDefKind};
use tauri_bindgen::error::Error;
use tauri_bindgen::validate::{check_kind, check_names, find_cycle, find_duplicate, validate};

fn alias(ident: &str, ty: Type) -> TypeDef {
    TypeDef { ident: ident.to_string(), docs: String::new(), kind: TypeDefKind::Alias(ty) }
}

fn function(id: &str, params: &[&str]) -> Function {
    Function {
        id: id.to_string(),
        docs: String::new(),
        params: params.iter().map(|name| (name.to_string(), Type::U8)).collect(),
        result: None,
    }
}

fn interface(typedefs: Vec<TypeDef>, functions: Vec<Function>) -> Interface {
    Interface { ident: "i".to_string(), docs: String::new(), typedefs, functions }
}

fn flags(ident: &str, count: usize) -> TypeDef {
    let fields = (0..count)
        .map(|i| FlagsField { id: format!("f{i}"), docs: String::new() })
        .collect();
    TypeDef { ident: ident.to_string(), docs: String::new(), kind: TypeDefKind::Flags(fields) }
}

fn names(list: &[&str]) -> Vec<String> {
    list.iter().map(|name| name.to_string()).collect()
}

fn findings(outcome: Result<(), Error>) -> Vec<Error> {
    match outcome {
        Ok(()) => Vec::new(),
        Err(Error::Multi { errors }) => errors,
        Err(_) => panic!("findings come as one error that holds them"),
    }
}

#[test]
fn the_first_repeated_name_is_found() {
    assert_eq!(find_duplicate(&names(&[])), None);
    assert_eq!(find_duplicate(&names(&["a"])), None);
    assert_eq!(find_duplicate(&names(&["a", "b", "c"])), None);
    assert_eq!(find_duplicate(&names(&["a", "b", "a"])), Some((0, 2)));
    assert_eq!(find_duplicate(&names(&["a", "b", "b", "a"])), Some((1, 2)));
    assert_eq!(find_duplicate(&names(&["x", "a", "a", "a"])), Some((1, 2)));
    assert_eq!(find_duplicate(&names(&["a", "A"])), None);
    assert!(check_names(&names(&["a", "b"])).is_ok());
    match check_names(&names(&["a", "b", "a"])) {
        Err(Error::AlreadyDefined { ident, first, second }) => {
            assert_eq!(ident, "a");
            assert_eq!((first, second), (0, 2));
        },
        _ => panic!("a name that is declared twice is reported"),
    }
}

#[test]
fn two_aliases_of_each_other_are_a_cycle() {
    let typedefs = vec![alias("x", Type::Id(1)), alias("y", Type::Id(0))];
    assert_eq!(find_cycle(&typedefs, 0), Some(names(&["x", "y"])));
    assert_eq!(find_cycle(&typedefs, 1), None);
    let errors = findings(validate(&interface(typedefs, Vec::new())));
    assert_eq!(errors.len(), 1);
    match &errors[0] {
        Error::RecursiveType { idents } => assert_eq!(idents, &names(&["x", "y"])),
        _ => panic!("a cycle of aliases is reported"),
    }
}

#[test]
fn cycles_are_reported_at_their_first_definition() {
    let typedefs = vec![
        alias("start", Type::Id(2)),
        alias("own", Type::Id(1)),
        alias("a", Type::Id(4)),
        alias("plain", Type::String),
        alias("b", Type::Id(5)),
        alias("c", Type::Id(2)),
        alias("listed", Type::List(Box::new(Type::Id(6)))),
        alias("open", Type::Id(40)),
    ];
    assert_eq!(find_cycle(&typedefs, 0), None);
    assert_eq!(find_cycle(&typedefs, 1), Some(names(&["own"])));
    assert_eq!(find_cycle(&typedefs, 2), Some(names(&["a", "b", "c"])));
    assert_eq!(find_cycle(&typedefs, 3), None);
    assert_eq!(find_cycle(&typedefs, 4), None);
    assert_eq!(find_cycle(&typedefs, 5), None);
    assert_eq!(find_cycle(&typedefs, 6), None);
    assert_eq!(find_cycle(&typedefs, 7), None);
    assert!(check_kind(&typedefs, 0).is_ok());
    assert!(check_kind(&typedefs, 1).is_err());
    let errors = findings(validate(&interface(typedefs, Vec::new())));
    assert_eq!(errors.len(), 2);
}

#[test]
fn a_long_chain_of_aliases_is_no_cycle() {
    let mut typedefs: Vec<TypeDef> = (0..50usize)
        .map(|i| alias(&format!("t{i}"), Type::Id(i + 1)))
        .collect();
    typedefs.push(alias("last", Type::U8));
    assert!(validate(&interface(typedefs, Vec::new())).is_ok());
}

#[test]
fn too_many_flags_are_reported() {
    assert!(validate(&interface(vec![flags("f", 128)], Vec::new())).is_ok());
    let typedefs = vec![flags("f", 129)];
    match check_kind(&typedefs, 0) {
        Err(Error::TooManyFlags { count }) => assert_eq!(count, 129),
        _ => panic!("a flags declaration with too many fields is reported"),
    }
    assert_eq!(findings(validate(&interface(typedefs, Vec::new()))).len(), 1);
}

#[test]
fn an_interface_that_keeps_the_rules_is_accepted() {
    assert!(validate(&interface(Vec::new(), Vec::new())).is_ok());
    let typedefs = vec![alias("a", Type::String), alias("b", Type::Id(0)), flags("f", 3)];
    let functions = vec![function("take-char", &["x"]), function("a", &["x", "y"])];
    assert!(validate(&interface(typedefs, functions)).is_ok());
}

#[test]
fn findings_come_in_the_order_of_the_places() {
    let typedefs = vec![
        alias("a", Type::Id(0)),
        flags("f", 200),
        alias("a", Type::U8),
    ];
    let functions = vec![
        function("g", &["x", "x"]),
        function("h", &[]),
        function("g", &["p", "q", "q"]),
    ];
    let errors = findings(validate(&interface(typedefs, functions)));
    assert_eq!(errors.len(), 6);
    match &errors[0] {
        Error::AlreadyDefined { ident, first, second } => {
            assert_eq!(ident, "a");
            assert_eq!((*first, *second), (0, 2));
        },
        _ => panic!("the type definitions come first"),
    }
    match &errors[1] {
        Error::AlreadyDefined { ident, first, second } => {
            assert_eq!(ident, "g");
            assert_eq!((*first, *second), (0, 2));
        },
        _ => panic!("the functions come second"),
    }
    match &errors[2] {
        Error::RecursiveType { idents } => assert_eq!(idents, &names(&["a"])),
        _ => panic!("then each type definition"),
    }
    match &errors[3] {
        Error::TooManyFlags { count } => assert_eq!(*count, 200),
        _ => panic!("then each type definition"),
    }
    match &errors[4] {
        Error::AlreadyDefined { ident, first, second } => {
            assert_eq!(ident, "x");
            assert_eq!((*first, *second), (0, 1));
        },
        _ => panic!("then the parameters of each function"),
    }
    match &errors[5] {
        Error::AlreadyDefined { ident, first, second } => {
            assert_eq!(ident, "q");
            assert_eq!((*first, *second), (1, 2));
        },
        _ => panic!("then the parameters of each function"),
    }
}

#[test]
fn a_name_stands_for_its_first_definition() {
    let typedefs = vec![
        alias("strings", Type::String),
        alias("string-list", Type::List(Box::new(Type::String))),
        alias("strange", Type::U8),
        alias("strings", Type::U8),
    ];
    assert!(matches!(tauri_bindgen::validate::resolve(&typedefs, "strings"), Ok(0)));
    assert!(matches!(tauri_bindgen::validate::resolve(&typedefs, "strange"), Ok(2)));
    match tauri_bindgen::validate::resolve(&typedefs, "string") {
        Err(Error::NotDefined { ident, candidates }) => {
            assert_eq!(ident, "string");
            assert_eq!(candidates, names(&["strings", "strange", "strings"]));
        },
        _ => panic!("a name that nothing declares is reported"),
    }
    match tauri_bindgen::validate::resolve(&Vec::new(), "a") {
        Err(Error::NotDefined { ident, candidates }) => {
            assert_eq!(ident, "a");
            assert!(candidates.is_empty());
        },
        _ => panic!("a name that nothing declares is reported"),
    }
}

#[test]
fn findings_can_be_compared() {
    let typedefs = vec![alias("x", Type::Id(1)), alias("y", Type::Id(0))];
    assert_eq!(
        validate(&interface(typedefs, Vec::new())),
        Err(Error::Multi { errors: vec![Error::RecursiveType { idents: names(&["x", "y"]) }] })
    );
    assert_eq!(
        check_names(&names(&["a", "a"])),
        Err(Error::AlreadyDefined { ident: "a".to_string(), first: 0, second: 1 })
    );
}
