use tauri_bindgen::ast::{
    check_arena, FlagsField, Function, FunctionResult, Int, RecordField, Type, TypeDef,
    TypeDefKind, UnionCase, VariantCase,
};
use tauri_bindgen::error::Error;
use tauri_bindgen::repr::{checked_flags_repr, flags_repr};
use tauri_bindgen::serde_utils::{
    own_type_info, Codec, Direction, Snippet, SerdeUtils, SnippetLibrary, BITS16, BITS8, BOOL,
    BYTES, CHAR, DE, F32, F64, LIST, OPTION, RESULT, S16, S16_ONLY, SER, SIGNED, STRING, STR_UTIL,
    U32, U64, U8, U8_ONLY, UNSIGNED, VARINT, VARINT_MAX,
};

fn typedef(ident: &str, kind: TypeDefKind) -> TypeDef {
    TypeDef { ident: ident.to_string(), docs: String::new(), kind }
}

fn function(id: &str, params: Vec<(&str, Type)>, result: Option<FunctionResult>) -> Function {
    Function {
        id: id.to_string(),
        docs: String::new(),
        params: params.into_iter().map(|(n, t)| (n.to_string(), t)).collect(),
        result,
    }
}

fn flags(n: usize) -> Vec<FlagsField> {
    (0..n).map(|i| FlagsField { id: format!("f{i}"), docs: String::new() }).collect()
}

#[test]
fn bit_values() {
    assert_eq!(VARINT_MAX, 2);
    assert_eq!(VARINT, 6);
    assert_eq!(BOOL, 8);
    assert_eq!(BITS8, 16);
    assert_eq!(BITS16, 32);
    assert_eq!(SIGNED, 512);
    assert_eq!(UNSIGNED, 1024);
    assert_eq!(U8, U8_ONLY | 16 | 6 | 1024);
    assert_eq!(S16, S16_ONLY | 32 | 6 | 512);
    assert_eq!(U8_ONLY, 1 << 23);
    assert_eq!(S16_ONLY, 1 << 29);
    assert_eq!(CHAR, (1 << 14) | U64 | (1 << 22));
    assert_eq!(STRING, (1 << 15) | U64 | STR_UTIL);
    assert_eq!(BYTES, (1 << 16) | U64);
    assert_eq!(OPTION, (1 << 17) | U32);
    assert_eq!(RESULT, (1 << 18) | U32);
    assert_eq!(LIST, (1 << 19) | U64);
    assert_eq!(DE, 1 << 20);
    assert_eq!(SER, 1 << 21);
    assert_eq!(F32, 1 << 12);
    assert_eq!(F64, 1 << 13);
}

#[test]
fn flags_width_is_the_narrowest() {
    assert_eq!(flags_repr(&flags(0)), Int::U8);
    assert_eq!(flags_repr(&flags(3)), Int::U8);
    assert_eq!(flags_repr(&flags(8)), Int::U8);
    assert_eq!(flags_repr(&flags(9)), Int::U16);
    assert_eq!(flags_repr(&flags(16)), Int::U16);
    assert_eq!(flags_repr(&flags(17)), Int::U32);
    assert_eq!(flags_repr(&flags(32)), Int::U32);
    assert_eq!(flags_repr(&flags(33)), Int::U64);
    assert_eq!(flags_repr(&flags(64)), Int::U64);
    assert_eq!(flags_repr(&flags(65)), Int::U128);
    assert_eq!(flags_repr(&flags(128)), Int::U128);
    assert_eq!(Int::U64.width(), 64);
}

#[test]
fn too_many_flags_are_refused() {
    assert!(matches!(checked_flags_repr(&flags(128)), Ok(Int::U128)));
    assert!(matches!(checked_flags_repr(&flags(129)), Err(Error::TooManyFlags { count: 129 })));
    let arena = vec![typedef("f", TypeDefKind::Flags(flags(129)))];
    assert!(!check_arena(&arena));
}

#[test]
fn flags_need_their_integer() {
    let arena = vec![typedef("f", TypeDefKind::Flags(flags(3)))];
    let functions = vec![function("roundtrip", vec![("x", Type::Id(0))], None)];
    let info = SerdeUtils::collect_from_functions(&arena, &functions);
    assert!(info.contains(SerdeUtils::from_bits(U8 | VARINT | UNSIGNED | VARINT_MAX)));
    assert_eq!(info.bits(), U8 | SER);
    assert_eq!(SerdeUtils::collect_typedef_info(&arena, 0).bits(), U8);
}

#[test]
fn empty_interface_needs_nothing() {
    let info = SerdeUtils::collect_from_functions(&Vec::new(), &[]);
    assert!(info.is_empty());
    assert_eq!(info.snippets(), vec![Snippet::Deserializer]);
    let unused = vec![typedef("r", TypeDefKind::Record(vec![RecordField {
        id: "a".to_string(),
        ty: Type::String,
        docs: String::new(),
    }]))];
    assert!(SerdeUtils::collect_from_functions(&unused, &[]).is_empty());
}

#[test]
fn direction_follows_parameters_and_results() {
    let functions = vec![
        function("take-char", vec![("x", Type::Char)], None),
        function("return-bool", vec![], Some(FunctionResult::Anon(Type::Bool))),
    ];
    let info = SerdeUtils::collect_from_functions(&Vec::new(), &functions);
    assert_eq!(info.bits(), SER | CHAR | DE | BOOL);
    let none = vec![function("nothing", vec![], Some(FunctionResult::Named(Vec::new())))];
    assert!(SerdeUtils::collect_from_functions(&Vec::new(), &none).is_empty());
}

#[test]
fn own_needs_of_types() {
    assert_eq!(own_type_info(&Type::List(Box::new(Type::U8))), BYTES);
    assert_eq!(own_type_info(&Type::List(Box::new(Type::Bool))), LIST | BOOL);
    assert_eq!(own_type_info(&Type::Option(Box::new(Type::Float32))), OPTION | F32);
    assert_eq!(own_type_info(&Type::Result { ok: None, err: None }), RESULT);
    assert_eq!(
        own_type_info(&Type::Result { ok: Some(Box::new(Type::S16)), err: Some(Box::new(Type::String)) }),
        RESULT | S16 | STRING
    );
    assert_eq!(own_type_info(&Type::Tuple(vec![Type::U8, Type::Float64])), U8 | F64);
    assert_eq!(own_type_info(&Type::Tuple(Vec::new())), 0);
    assert_eq!(own_type_info(&Type::Id(7)), 0);
}

#[test]
fn definitions_are_followed_through() {
    let arena = vec![
        typedef("a", TypeDefKind::Alias(Type::Id(1))),
        typedef("r", TypeDefKind::Record(vec![RecordField {
            id: "inner".to_string(),
            ty: Type::Option(Box::new(Type::Id(2))),
            docs: String::new(),
        }])),
        typedef("v", TypeDefKind::Variant(vec![
            VariantCase { id: "a".to_string(), ty: Some(Type::Float64), docs: String::new() },
            VariantCase { id: "b".to_string(), ty: None, docs: String::new() },
        ])),
        typedef("unused", TypeDefKind::Alias(Type::Char)),
    ];
    assert_eq!(SerdeUtils::collect_type_info(&arena, &Type::Id(0)).bits(), OPTION | U32 | F64);
    assert_eq!(SerdeUtils::collect_typedef_info(&arena, 2).bits(), U32 | F64);
    assert_eq!(SerdeUtils::collect_typedef_info(&arena, 3).bits(), CHAR);
    let functions = vec![function("f", vec![], Some(FunctionResult::Anon(Type::Id(0))))];
    assert_eq!(
        SerdeUtils::collect_from_functions(&arena, &functions).bits(),
        DE | OPTION | U32 | F64
    );
}

#[test]
fn a_definition_that_contains_itself_is_walked_once() {
    let arena = vec![
        typedef("node", TypeDefKind::Record(vec![
            RecordField { id: "value".to_string(), ty: Type::S16, docs: String::new() },
            RecordField {
                id: "children".to_string(),
                ty: Type::List(Box::new(Type::Id(0))),
                docs: String::new(),
            },
            RecordField { id: "other".to_string(), ty: Type::Id(1), docs: String::new() },
        ])),
        typedef("u", TypeDefKind::Union(vec![
            UnionCase { ty: Type::Id(0), docs: String::new() },
            UnionCase { ty: Type::Bool, docs: String::new() },
        ])),
    ];
    assert!(check_arena(&arena));
    let functions = vec![function("walk", vec![("n", Type::Id(1))], None)];
    assert_eq!(
        SerdeUtils::collect_from_functions(&arena, &functions).bits(),
        SER | U32 | BOOL | S16 | LIST
    );
}

#[test]
fn enum_and_resource_need_the_tag() {
    let arena = vec![
        typedef("e", TypeDefKind::Enum(Vec::new())),
        typedef("res", TypeDefKind::Resource(vec![function(
            "method",
            vec![("s", Type::String)],
            None,
        )])),
    ];
    assert_eq!(SerdeUtils::collect_typedef_info(&arena, 0).bits(), U32);
    assert_eq!(SerdeUtils::collect_typedef_info(&arena, 1).bits(), U32);
}

#[test]
fn set_operations() {
    let mut set = SerdeUtils::empty();
    assert!(set.is_empty());
    set.insert(SerdeUtils::from_bits(BOOL));
    assert!(set.contains(SerdeUtils::from_bits(BOOL)));
    assert!(!set.contains(SerdeUtils::from_bits(BOOL | DE)));
    let both = set.union(SerdeUtils::from_bits(DE));
    assert_eq!(both.bits(), BOOL | DE);
    assert!(both.contains(SerdeUtils::empty()));
}

#[test]
fn snippets_come_in_the_order_of_emission() {
    let all = Snippet::list();
    assert_eq!(all.len(), 44);
    assert_eq!(all[0], Snippet::Deserializer);
    assert_eq!(all[1], Snippet::VarintMax);
    assert_eq!(all[2], Snippet::Codec(Direction::De, Codec::Varint));
    assert_eq!(all[21], Snippet::Codec(Direction::De, Codec::List));
    assert_eq!(all[22], Snippet::Codec(Direction::Ser, Codec::Varint));
    assert_eq!(all[41], Snippet::Codec(Direction::Ser, Codec::List));
    assert_eq!(all[42], Snippet::StrUtil(Direction::De));
    assert_eq!(all[43], Snippet::StrUtil(Direction::Ser));

    let set = SerdeUtils::from_bits(U8 | DE | CHAR | SER);
    assert_eq!(
        set.snippets(),
        vec![
            Snippet::Deserializer,
            Snippet::VarintMax,
            Snippet::Codec(Direction::De, Codec::Varint),
            Snippet::Codec(Direction::De, Codec::U8),
            Snippet::Codec(Direction::De, Codec::U64),
            Snippet::Codec(Direction::De, Codec::Char),
            Snippet::Codec(Direction::Ser, Codec::Varint),
            Snippet::Codec(Direction::Ser, Codec::U8),
            Snippet::Codec(Direction::Ser, Codec::U64),
            Snippet::Codec(Direction::Ser, Codec::Char),
            Snippet::StrUtil(Direction::De),
            Snippet::StrUtil(Direction::Ser),
        ]
    );
    // A width and a signedness alone select no codec: each integer has a
    // bit of its own.
    let loose = SerdeUtils::from_bits(BITS8 | BITS16 | SIGNED | UNSIGNED | DE);
    assert_eq!(loose.snippets(), vec![Snippet::Deserializer]);
}

#[test]
fn integers_of_two_widths_and_signs_bring_their_own_codecs_only() {
    let functions = vec![function("f", vec![("a", Type::U8), ("b", Type::S16)], None)];
    let info = SerdeUtils::collect_from_functions(&Vec::new(), &functions);
    assert_eq!(info.bits(), SER | U8 | S16);
    assert_eq!(
        info.snippets(),
        vec![
            Snippet::Deserializer,
            Snippet::VarintMax,
            Snippet::Codec(Direction::Ser, Codec::Varint),
            Snippet::Codec(Direction::Ser, Codec::U8),
            Snippet::Codec(Direction::Ser, Codec::S16),
        ]
    );
    let files: Vec<String> = (0..42).map(|i| format!("<{i}>")).collect();
    let library = SnippetLibrary::new(files).unwrap();
    assert_eq!(info.render(&library), "<0><1><22><24><30>");

    // The integer below a length or a tag comes with the codec that rests on
    // it, and the integer behind a set of flags with the flags.
    let arena = vec![typedef("f", TypeDefKind::Flags(flags(9)))];
    let functions = vec![function(
        "g",
        vec![("a", Type::S8)],
        Some(FunctionResult::Named(vec![
            ("s".to_string(), Type::String),
            ("o".to_string(), Type::Option(Box::new(Type::Id(0)))),
        ])),
    )];
    let info = SerdeUtils::collect_from_functions(&arena, &functions);
    assert_eq!(
        info.snippets(),
        vec![
            Snippet::Deserializer,
            Snippet::VarintMax,
            Snippet::Codec(Direction::De, Codec::Varint),
            Snippet::Codec(Direction::De, Codec::U16),
            Snippet::Codec(Direction::De, Codec::U32),
            Snippet::Codec(Direction::De, Codec::U64),
            Snippet::Codec(Direction::De, Codec::S8),
            Snippet::Codec(Direction::De, Codec::String),
            Snippet::Codec(Direction::De, Codec::Option),
            Snippet::Codec(Direction::Ser, Codec::Varint),
            Snippet::Codec(Direction::Ser, Codec::U16),
            Snippet::Codec(Direction::Ser, Codec::U32),
            Snippet::Codec(Direction::Ser, Codec::U64),
            Snippet::Codec(Direction::Ser, Codec::S8),
            Snippet::Codec(Direction::Ser, Codec::String),
            Snippet::Codec(Direction::Ser, Codec::Option),
            Snippet::StrUtil(Direction::De),
            Snippet::StrUtil(Direction::Ser),
        ]
    );
}

#[test]
fn file_names_of_snippets() {
    assert_eq!(Snippet::Deserializer.file_name(), Some("deserializer.js".to_string()));
    assert_eq!(Snippet::VarintMax.file_name(), Some("varint_max.js".to_string()));
    assert_eq!(
        Snippet::Codec(Direction::De, Codec::U128).file_name(),
        Some("de_u128.js".to_string())
    );
    assert_eq!(
        Snippet::Codec(Direction::Ser, Codec::String).file_name(),
        Some("ser_string.js".to_string())
    );
    assert_eq!(Snippet::StrUtil(Direction::De).file_name(), None);
    assert_eq!(Codec::Option.index(), 17);
    assert_eq!(Codec::list().len(), 20);
}

#[test]
fn render_concatenates_the_selected_snippets() {
    let files: Vec<String> = (0..42).map(|i| format!("<{i}>")).collect();
    assert!(SnippetLibrary::new(vec![String::new(); 41]).is_none());
    let library = SnippetLibrary::new(files).unwrap();
    assert_eq!(SerdeUtils::empty().render(&library), "<0>");
    let set = SerdeUtils::from_bits(STRING | SER);
    assert_eq!(
        set.render(&library),
        "<0><1><22><27><37>const __text_encoder = new TextEncoder();\n"
    );
    let read = SerdeUtils::from_bits(BOOL | CHAR | DE);
    assert_eq!(
        read.render(&library),
        "<0><1><2><3><7><16>const __text_decoder = new TextDecoder('utf-8');\n"
    );
    assert_eq!(library.snippet(Snippet::Codec(Direction::Ser, Codec::List)), "<41>");
}

#[test]
fn the_whole_is_what_the_functions_need_one_by_one() {
    let arena = vec![
        typedef("r", TypeDefKind::Record(vec![RecordField {
            id: "inner".to_string(),
            ty: Type::Option(Box::new(Type::Id(1))),
            docs: String::new(),
        }])),
        typedef("e", TypeDefKind::Enum(Vec::new())),
        typedef("unused", TypeDefKind::Alias(Type::Float64)),
    ];
    let functions = vec![
        function("f", vec![("a", Type::U8), ("b", Type::Id(0))], None),
        function("g", vec![], Some(FunctionResult::Anon(Type::List(Box::new(Type::S16))))),
    ];
    let whole = SerdeUtils::collect_from_functions(&arena, &functions).bits();
    let first = SerdeUtils::collect_type_info(&arena, &Type::U8).bits();
    let second = SerdeUtils::collect_type_info(&arena, &Type::Id(0)).bits();
    let third = SerdeUtils::collect_type_info(&arena, &Type::List(Box::new(Type::S16))).bits();
    assert_eq!(first, U8);
    assert_eq!(second, OPTION | U32);
    assert_eq!(third, LIST | S16);
    assert_eq!(whole, (SER | first) | (SER | second) | (DE | third));
    assert_eq!(whole & F64, 0);
}
