use tauri_bindgen::ast::{Function, FunctionResult, RecordField, Type, TypeDef, TypeDefKind};
use tauri_bindgen::typeinfo::{TypeInfo, TypeInfos};

fn typedef(ident: &str, kind: TypeDefKind) -> TypeDef {
    TypeDef { ident: ident.to_string(), docs: String::new(), kind }
}

#[test]
fn use_is_followed_through_definitions() {
    let arena = vec![
        typedef("inner", TypeDefKind::Alias(Type::U8)),
        typedef("outer", TypeDefKind::Record(vec![RecordField {
            id: "x".to_string(),
            ty: Type::List(Box::new(Type::Id(0))),
            docs: String::new(),
        }])),
        typedef("back", TypeDefKind::Alias(Type::Id(0))),
        typedef("unused", TypeDefKind::Alias(Type::Id(1))),
    ];
    let functions = vec![
        Function {
            id: "send".to_string(),
            docs: String::new(),
            params: vec![("o".to_string(), Type::Id(1))],
            result: None,
        },
        Function {
            id: "receive".to_string(),
            docs: String::new(),
            params: Vec::new(),
            result: Some(FunctionResult::Named(vec![("b".to_string(), Type::Id(2))])),
        },
    ];
    let infos = TypeInfos::collect_from_functions(&arena, &functions);
    assert_eq!(infos.len(), 4);
    assert_eq!(infos.get(0), TypeInfo { param: true, result: true });
    assert_eq!(infos.get(1), TypeInfo { param: true, result: false });
    assert_eq!(infos.get(2), TypeInfo { param: false, result: true });
    assert_eq!(infos.get(3), TypeInfo { param: false, result: false });
}
