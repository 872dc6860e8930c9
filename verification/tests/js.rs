use tauri_bindgen::ast::{
    EnumCase, FlagsField, Function, FunctionResult, Interface, RecordField, Type, TypeDef,
    TypeDefKind, UnionCase, VariantCase,
};
use tauri_bindgen::js::{
    print_deserialize_function_result, print_deserialize_ty, print_deserialize_typedef,
    print_named_reader, print_named_writer, print_serialize_ty, print_serialize_typedef,
    print_tagged_reader_case, print_union_writer_case, JavaScript, JavaScriptGenerator,
};
use tauri_bindgen::repr::{print_type_ident, union_case_names};

fn typedef(ident: &str, kind: TypeDefKind) -> TypeDef {
    TypeDef { ident: ident.to_string(), docs: String::new(), kind }
}

fn variants() -> Vec<TypeDef> {
    vec![typedef("v", TypeDefKind::Variant(vec![
        VariantCase { id: "a".to_string(), ty: Some(Type::U32), docs: String::new() },
        VariantCase { id: "b".to_string(), ty: None, docs: String::new() },
    ]))]
}

fn arena() -> Vec<TypeDef> {
    vec![
        typedef("my-alias", TypeDefKind::Alias(Type::String)),
        typedef("a-record", TypeDefKind::Record(vec![
            RecordField { id: "first-field".to_string(), ty: Type::U8, docs: String::new() },
            RecordField { id: "second".to_string(), ty: Type::Id(0), docs: String::new() },
        ])),
        typedef("some-flags", TypeDefKind::Flags(
            (0..9).map(|i| FlagsField { id: format!("f{i}"), docs: String::new() }).collect(),
        )),
        typedef("an-enum", TypeDefKind::Enum(vec![
            EnumCase { id: "first-case".to_string(), docs: String::new() },
            EnumCase { id: "second".to_string(), docs: String::new() },
        ])),
        typedef("a-union", TypeDefKind::Union(vec![
            UnionCase { ty: Type::U32, docs: String::new() },
            UnionCase { ty: Type::String, docs: String::new() },
            UnionCase { ty: Type::U32, docs: String::new() },
        ])),
        typedef("handle", TypeDefKind::Resource(Vec::new())),
    ]
}

#[test]
fn primitive_readers() {
    let none = Vec::new();
    assert_eq!(print_deserialize_ty(&none, &Type::Bool), "deserializeBool(de)");
    assert_eq!(print_deserialize_ty(&none, &Type::U128), "deserializeU128(de)");
    assert_eq!(print_deserialize_ty(&none, &Type::S8), "deserializeS8(de)");
    assert_eq!(print_deserialize_ty(&none, &Type::Float32), "deserializeF32(de)");
    assert_eq!(print_deserialize_ty(&none, &Type::Float64), "deserializeF64(de)");
    assert_eq!(print_deserialize_ty(&none, &Type::Char), "deserializeChar(de)");
    assert_eq!(print_deserialize_ty(&none, &Type::String), "deserializeString(de)");
}

#[test]
fn container_readers() {
    let none = Vec::new();
    assert_eq!(
        print_deserialize_ty(&none, &Type::List(Box::new(Type::U8))),
        "deserializeBytes(de)"
    );
    assert_eq!(
        print_deserialize_ty(&none, &Type::List(Box::new(Type::U16))),
        "deserializeList(de, (de) => deserializeU16(de))"
    );
    assert_eq!(
        print_deserialize_ty(&none, &Type::Option(Box::new(Type::Char))),
        "deserializeOption(de, (de) => deserializeChar(de))"
    );
    assert_eq!(
        print_deserialize_ty(&none, &Type::Tuple(vec![Type::Bool, Type::S64, Type::String])),
        "[deserializeBool(de), deserializeS64(de), deserializeString(de)]"
    );
    assert_eq!(print_deserialize_ty(&none, &Type::Tuple(Vec::new())), "[]");
    assert_eq!(
        print_deserialize_ty(&none, &Type::Result { ok: None, err: None }),
        "deserializeResult(de, () => {}, () => {})"
    );
    assert_eq!(
        print_deserialize_ty(
            &none,
            &Type::Result { ok: Some(Box::new(Type::U8)), err: Some(Box::new(Type::String)) }
        ),
        "deserializeResult(de, (de) => deserializeU8(de), (de) => deserializeString(de))"
    );
}

#[test]
fn named_readers_and_writers() {
    let arena = arena();
    assert_eq!(print_deserialize_ty(&arena, &Type::Id(0)), "deserializeMyAlias(de)");
    assert_eq!(print_deserialize_ty(&arena, &Type::Id(5)), "Handle.deserialize(de)");
    assert_eq!(print_serialize_ty(&arena, "x", &Type::Id(1)), "serializeARecord(out, x)");
    assert_eq!(print_serialize_ty(&arena, "x", &Type::Id(5)), "x.serialize(out)");
    assert_eq!(print_named_reader("Abc", false), "deserializeAbc(de)");
    assert_eq!(print_named_reader("Abc", true), "Abc.deserialize(de)");
    assert_eq!(print_named_writer("Abc", false, "val"), "serializeAbc(out, val)");
    assert_eq!(print_named_writer("Abc", true, "val"), "val.serialize(out)");
}

#[test]
fn writers() {
    let none = Vec::new();
    assert_eq!(print_serialize_ty(&none, "x", &Type::Bool), "serializeBool(out, x)");
    assert_eq!(print_serialize_ty(&none, "x", &Type::Float64), "serializeF64(out, x)");
    assert_eq!(
        print_serialize_ty(&none, "x", &Type::List(Box::new(Type::U8))),
        "serializeBytes(out, x)"
    );
    assert_eq!(
        print_serialize_ty(&none, "x", &Type::List(Box::new(Type::Char))),
        "serializeList(out, (out, v) => serializeChar(out, v), x)"
    );
    assert_eq!(print_serialize_ty(&none, "x", &Type::Tuple(Vec::new())), "{}");
    assert_eq!(
        print_serialize_ty(&none, "x", &Type::Tuple(vec![Type::U8, Type::String])),
        "{serializeU8(out, x[0]);serializeString(out, x[1])}"
    );
    let wide = Type::Tuple((0..11).map(|_| Type::Bool).collect());
    assert!(print_serialize_ty(&none, "t", &wide).ends_with(";serializeBool(out, t[10])}"));
    assert_eq!(
        print_serialize_ty(&none, "x", &Type::Option(Box::new(Type::S32))),
        "serializeOption(out, (out, v) => serializeS32(out, v), x)"
    );
    assert_eq!(
        print_serialize_ty(&none, "x", &Type::Result { ok: None, err: Some(Box::new(Type::U64)) }),
        "serializeResult(out, (out, v) => {}, (out, v) => serializeU64(out, v), x)"
    );
}

#[test]
fn variant_reader_switches_on_the_tag() {
    let arena = variants();
    assert_eq!(
        print_deserialize_typedef(&arena, 0),
        "function deserializeV(de) {\n    const tag = deserializeU32(de)\n\n    switch (tag) {\n        case 0:\n    return { A: deserializeU32(de) }\ncase 1:\n    return { B: null }\n\n\n        default:\n            throw new Error(`unknown variant case ${tag}`)\n    }\n}"
    );
    assert_eq!(print_tagged_reader_case(12, "Name", "inner"), "case 12:\n    return { Name: inner }\n");
}

#[test]
fn variant_writer() {
    let arena = variants();
    assert_eq!(
        print_serialize_typedef(&arena, 0),
        "function serializeV(out, val) {\n    if (val.A) {\n    serializeU32(out, 0);\n    serializeU32(out, val.A)\n\n    return\n}\nif (val.B) {\n    serializeU32(out, 1);\n    \n\n    return\n}\n\n\n    throw new Error(\"unknown variant case\")\n}"
    );
}

#[test]
fn alias_record_flags_enum() {
    let arena = arena();
    assert_eq!(
        print_deserialize_typedef(&arena, 0),
        "function deserializeMyAlias(de) {\n    return deserializeString(de)\n}"
    );
    assert_eq!(
        print_serialize_typedef(&arena, 0),
        "function serializeMyAlias(out, val) {\n    serializeString(out, val)\n}"
    );
    assert_eq!(
        print_deserialize_typedef(&arena, 1),
        "function deserializeARecord(de) {\n    return {\n        firstField: deserializeU8(de),\nsecond: deserializeMyAlias(de)\n    }\n}"
    );
    assert_eq!(
        print_serialize_typedef(&arena, 1),
        "function serializeARecord(out, val) {\n    serializeU8(out, val.firstField),\nserializeMyAlias(out, val.second)\n}"
    );
    assert_eq!(
        print_deserialize_typedef(&arena, 2),
        "function deserializeSomeFlags(de) {\n    return deserializeU16(de)\n}"
    );
    assert_eq!(
        print_serialize_typedef(&arena, 2),
        "function serializeSomeFlags(out, val) {\n    return serializeU16(out, val)\n}"
    );
    assert_eq!(
        print_deserialize_typedef(&arena, 3),
        "function deserializeAnEnum(de) {\n    const tag = deserializeU32(de)\n\n    switch (tag) {\n        case 0:\n    return \"FirstCase\"\ncase 1:\n    return \"Second\"\n\n\n        default:\n            throw new Error(`unknown enum case ${tag}`)\n    }\n}"
    );
    assert_eq!(
        print_serialize_typedef(&arena, 3),
        "function serializeAnEnum(out, val) {\n    switch (val) {\n        case \"FirstCase\":\n    serializeU32(out, 0)\n    return\ncase \"Second\":\n    serializeU32(out, 1)\n    return\n\n\n        default:\n            throw new Error(\"unknown enum case\")\n    }\n}"
    );
    assert_eq!(print_deserialize_typedef(&arena, 5), "");
    assert_eq!(print_serialize_typedef(&arena, 5), "");
}

#[test]
fn union_names_and_functions() {
    let arena = arena();
    let cases = match &arena[4].kind {
        TypeDefKind::Union(cases) => cases,
        _ => unreachable!(),
    };
    assert_eq!(union_case_names(&arena, cases), vec!["U320", "String", "U322"]);
    assert_eq!(
        print_deserialize_typedef(&arena, 4),
        "function deserializeAUnion(de) {\n    const tag = deserializeU32(de)\n\n    switch (tag) {\n        case 0:\n    return { U320: deserializeU32(de) }\ncase 1:\n    return { String: deserializeString(de) }\ncase 2:\n    return { U322: deserializeU32(de) }\n\n\n        default:\n            throw new Error(`unknown union case ${tag}`)\n    }\n}"
    );
    assert_eq!(
        print_serialize_typedef(&arena, 4),
        "function serializeAUnion(out, val) {\n    if (val.U320) {\n    serializeU32(out, 0);\n\n    return serializeU32(out, val.U320)\n}\n                if (val.String) {\n    serializeU32(out, 1);\n\n    return serializeString(out, val.String)\n}\n                if (val.U322) {\n    serializeU32(out, 2);\n\n    return serializeU32(out, val.U322)\n}\n                \n\n    throw new Error(\"unknown union case\")\n}"
    );
    assert_eq!(
        print_union_writer_case(3, "val.X", "w"),
        "if (val.X) {\n    serializeU32(out, 3);\n\n    return w\n}\n                "
    );
}

#[test]
fn type_idents() {
    let arena = arena();
    assert_eq!(print_type_ident(&arena, &Type::Float32), "Float32");
    assert_eq!(print_type_ident(&arena, &Type::List(Box::new(Type::U8))), "ListU8");
    assert_eq!(
        print_type_ident(&arena, &Type::Option(Box::new(Type::List(Box::new(Type::Id(1)))))),
        "OptionListARecord"
    );
    assert_eq!(print_type_ident(&arena, &Type::Tuple(vec![Type::Bool, Type::Char])), "TupleBoolChar");
    assert_eq!(
        print_type_ident(&arena, &Type::Result { ok: Some(Box::new(Type::S8)), err: None }),
        "ResultS8"
    );
    let same = vec![
        UnionCase { ty: Type::Id(0), docs: String::new() },
        UnionCase { ty: Type::Id(0), docs: String::new() },
    ];
    assert_eq!(union_case_names(&arena, &same), vec!["MyAlias0", "MyAlias1"]);
    assert_eq!(union_case_names(&arena, &[]), Vec::<String>::new());
}

#[test]
fn function_results() {
    let none = Vec::new();
    assert_eq!(
        print_deserialize_function_result(&none, &FunctionResult::Named(Vec::new())),
        ""
    );
    assert_eq!(
        print_deserialize_function_result(&none, &FunctionResult::Anon(Type::Char)),
        "\n        .then(r => r.arrayBuffer())\n        .then(bytes => {\n            const de = new Deserializer(new Uint8Array(bytes))\n\n            return deserializeChar(de)\n        })"
    );
    assert_eq!(
        print_deserialize_function_result(
            &none,
            &FunctionResult::Named(vec![("a".to_string(), Type::U8), ("b".to_string(), Type::Bool)])
        ),
        "\n        .then(r => r.arrayBuffer())\n        .then(bytes => {\n            const de = new Deserializer(Uint8Array.from(bytes))\n\n            return [deserializeU8(de), deserializeBool(de)]\n        })"
    );
}

#[test]
fn generator_prints_what_the_functions_print() {
    let interface = Interface {
        ident: "chars".to_string(),
        docs: String::new(),
        typedefs: vec![typedef("a", TypeDefKind::Alias(Type::String))],
        functions: vec![
            Function {
                id: "take-char".to_string(),
                docs: String::new(),
                params: vec![("x".to_string(), Type::Char)],
                result: None,
            },
            Function {
                id: "return-char".to_string(),
                docs: String::new(),
                params: Vec::new(),
                result: Some(FunctionResult::Anon(Type::Id(0))),
            },
        ],
    };
    let generator = JavaScript::new(interface).unwrap();
    assert_eq!(generator.interface().ident, "chars");
    assert_eq!(generator.print_serialize_ty("x", &Type::Char), "serializeChar(out, x)");
    assert_eq!(generator.print_deserialize_ty(&Type::Id(0)), "deserializeA(de)");
    assert_eq!(
        generator.print_deserialize_typedef(0),
        "function deserializeA(de) {\n    return deserializeString(de)\n}"
    );
    assert_eq!(
        generator.print_serialize_alias("A", &Type::String),
        "function serializeA(out, val) {\n    serializeString(out, val)\n}"
    );
    let info = generator.infos().get(0);
    assert!(info.result);
    assert!(!info.param);

    let broken = Interface {
        ident: "broken".to_string(),
        docs: String::new(),
        typedefs: Vec::new(),
        functions: vec![Function {
            id: "f".to_string(),
            docs: String::new(),
            params: vec![("x".to_string(), Type::Id(0))],
            result: None,
        }],
    };
    assert!(JavaScript::new(broken).is_none());
}
