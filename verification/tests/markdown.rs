use tauri_bindgen::ast::{
    EnumCase, FlagsField, Function, FunctionResult, Interface, RecordField, Type, TypeDef,
    TypeDefKind, UnionCase, VariantCase,
};
use tauri_bindgen::docs::{print_docs, trim_line};
use tauri_bindgen::markdown::{
    print_function, print_link, print_named_types, print_plain_member, print_result,
    print_section, print_ty, print_typedef, Builder,
};

fn typedef(ident: &str, docs: &str, kind: TypeDefKind) -> TypeDef {
    TypeDef { ident: ident.to_string(), docs: docs.to_string(), kind }
}

fn arena() -> Vec<TypeDef> {
    vec![
        typedef("my-alias", " An alias. \n  Second line.  ", TypeDefKind::Alias(Type::String)),
        typedef("rec", "", TypeDefKind::Record(vec![RecordField {
            id: "a".to_string(),
            ty: Type::Id(0),
            docs: "field docs".to_string(),
        }])),
        typedef("fl", "d", TypeDefKind::Flags(vec![FlagsField {
            id: "x".to_string(),
            docs: "dx".to_string(),
        }])),
        typedef("va", "", TypeDefKind::Variant(vec![
            VariantCase { id: "a".to_string(), ty: Some(Type::U32), docs: "da".to_string() },
            VariantCase { id: "b".to_string(), ty: None, docs: String::new() },
        ])),
        typedef("en", "", TypeDefKind::Enum(vec![EnumCase {
            id: "one".to_string(),
            docs: "first".to_string(),
        }])),
        typedef("un", "", TypeDefKind::Union(vec![UnionCase {
            ty: Type::List(Box::new(Type::U8)),
            docs: "bytes".to_string(),
        }])),
        typedef("res", "", TypeDefKind::Resource(vec![Function {
            id: "get".to_string(),
            docs: "Gets.".to_string(),
            params: vec![("key".to_string(), Type::String)],
            result: Some(FunctionResult::Anon(Type::Option(Box::new(Type::U8)))),
        }])),
    ]
}

#[test]
fn types_as_written() {
    let arena = arena();
    assert_eq!(print_ty(&arena, &Type::Bool), "bool");
    assert_eq!(print_ty(&arena, &Type::S128), "s128");
    assert_eq!(print_ty(&arena, &Type::Float32), "float32");
    assert_eq!(print_ty(&arena, &Type::Float64), "float64");
    assert_eq!(print_ty(&arena, &Type::String), "string");
    assert_eq!(print_ty(&arena, &Type::List(Box::new(Type::U8))), "list<u8>");
    assert_eq!(print_ty(&arena, &Type::Tuple(vec![Type::Char, Type::U16])), "tuple<char, u16>");
    assert_eq!(print_ty(&arena, &Type::Tuple(Vec::new())), "tuple<>");
    assert_eq!(print_ty(&arena, &Type::Option(Box::new(Type::Bool))), "option<bool>");
    assert_eq!(print_ty(&arena, &Type::Result { ok: None, err: None }), "result<_, _>");
    assert_eq!(
        print_ty(&arena, &Type::Result { ok: Some(Box::new(Type::U8)), err: None }),
        "result<u8, _>"
    );
    assert_eq!(print_ty(&arena, &Type::Id(0)), "[my-alias](#my_alias)");
    assert_eq!(print_link("a-b", "a_b"), "[a-b](#a_b)");
}

#[test]
fn docs_are_trimmed_line_by_line() {
    assert_eq!(print_docs(""), "");
    assert_eq!(print_docs("  one  "), "one");
    assert_eq!(print_docs(" a \n\tb\r\n\n c"), "a\nb\n\nc");
    assert_eq!(print_docs("a\n"), "a");
    assert_eq!(print_docs("a\n\n"), "a\n");
    assert_eq!(print_docs("\n"), "");
    assert_eq!(print_docs("x\r"), "x");
    assert_eq!(print_docs("   \n y"), "\ny");
    assert_eq!(trim_line(&" \t a b \u{a0}".chars().collect()), "a b");
    assert_eq!(trim_line(&"   ".chars().collect()), "");
    assert_eq!(trim_line(&Vec::new()), "");
}

#[test]
fn signatures() {
    let arena = arena();
    let params = vec![("a".to_string(), Type::U8), ("b".to_string(), Type::Id(1))];
    assert_eq!(print_named_types(&arena, &params), "a: u8, b: [rec](#rec)");
    assert_eq!(print_named_types(&arena, &Vec::new()), "");
    assert_eq!(print_result(&arena, &FunctionResult::Anon(Type::Bool)), " -> bool");
    assert_eq!(print_result(&arena, &FunctionResult::Anon(Type::Tuple(Vec::new()))), "");
    assert_eq!(print_result(&arena, &FunctionResult::Named(params)), " -> (a: u8, b: [rec](#rec))");
    assert_eq!(print_result(&arena, &FunctionResult::Named(Vec::new())), " -> ()");
    let function = Function {
        id: "take-char".to_string(),
        docs: "Takes.".to_string(),
        params: vec![("x".to_string(), Type::Char)],
        result: None,
    };
    assert_eq!(
        print_function(&arena, &function),
        "### Function take-char\n\n` func take-char (x: char)`\n\nTakes."
    );
}

#[test]
fn sections_of_type_definitions() {
    let arena = arena();
    assert_eq!(
        print_typedef(&arena, 0),
        "## Alias my-alias\n\n`string`\n\nAn alias.\nSecond line."
    );
    assert_eq!(
        print_typedef(&arena, 1),
        "## Struct rec\n\n\n\n### Fields\n\n#### a: `[my-alias](#my_alias)`\nfield docs\n"
    );
    assert_eq!(print_typedef(&arena, 2), "## Flags fl\n\nd\n\n### Fields\n\n#### x\ndx\n");
    assert_eq!(
        print_typedef(&arena, 3),
        "## Variant va\n\n\n\n### Cases\n\n#### a: `u32`\nda\n#### b\n\n"
    );
    assert_eq!(print_typedef(&arena, 4), "## Enum en\n\n\n\n### Cases\n\n#### one\nfirst\n");
    assert_eq!(
        print_typedef(&arena, 5),
        "## Union un\n\n\n\n### Cases\n\n#### `list<u8>`\nbytes\n"
    );
    assert_eq!(
        print_typedef(&arena, 6),
        "## Resource res\n\n\n\n### Methods\n\n### Method get\n\n`func get (key: string) -> option<u8>`\n\nGets."
    );
    assert_eq!(print_section("K", "i", "d", "M", "l"), "## K i\n\nd\n\n### M\n\nl");
    assert_eq!(print_plain_member("id", "docs"), "#### id\ndocs\n");
}

#[test]
fn whole_file() {
    let interface = Interface {
        ident: "chars".to_string(),
        docs: " Characters. ".to_string(),
        typedefs: vec![
            typedef("a", "", TypeDefKind::Alias(Type::String)),
            typedef("b", "", TypeDefKind::Alias(Type::Id(0))),
        ],
        functions: vec![
            Function {
                id: "take-char".to_string(),
                docs: String::new(),
                params: vec![("x".to_string(), Type::Char)],
                result: None,
            },
            Function {
                id: "return-char".to_string(),
                docs: String::new(),
                params: Vec::new(),
                result: Some(FunctionResult::Anon(Type::Id(0))),
            },
        ],
    };
    assert!(interface.is_resolved());
    let mut markdown = Builder::default().build(interface);
    let (name, contents) = markdown.to_file();
    assert_eq!(name, "chars.md");
    assert_eq!(
        contents,
        "# chars\n\nCharacters.\n\n## Type definitions\n\n## Alias a\n\n`string`\n\n\n## Alias b\n\n`[a](#a)`\n\n\n\n## Functions\n\n### Function take-char\n\n` func take-char (x: char)`\n\n\n### Function return-char\n\n` func return-char () -> [a](#a)`\n\n"
    );
    assert_eq!(markdown.print_ty(&Type::Id(1)), "[b](#b)");
}

#[test]
fn empty_interface_has_the_headings_only() {
    let interface = Interface {
        ident: "EmptyThing".to_string(),
        docs: String::new(),
        typedefs: Vec::new(),
        functions: Vec::new(),
    };
    let mut markdown = Builder::default().build(interface);
    let (name, contents) = markdown.to_file();
    assert_eq!(name, "empty-thing.md");
    assert_eq!(contents, "# EmptyThing\n\n\n\n## Type definitions\n\n\n\n## Functions\n\n");
    let nameless = Interface {
        ident: "--".to_string(),
        docs: String::new(),
        typedefs: Vec::new(),
        functions: Vec::new(),
    };
    assert_eq!(Builder::default().build(nameless).to_file().0, "");
}
