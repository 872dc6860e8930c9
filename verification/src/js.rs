//! Script text for a dynamically typed guest: for every type an expression
//! that reads a value from a deserializer `de`, and one that writes a value
//! to a byte buffer `out`.

use crate::ast::{
    arena_resolved, EnumCase, FlagsField, FunctionResult, Int, Interface, RecordField, Type,
    TypeDef, TypeDefArena, TypeDefId, TypeDefKind, UnionCase, VariantCase, MAX_FLAGS,
};
use crate::typeinfo::{usage, TypeInfos};
use crate::case::{lower_camel_case, to_lower_camel_case, to_upper_camel_case, upper_camel_case};
use crate::repr::{flags_int, flags_repr, union_case_names, union_names};
use crate::text::{
    cat2, cat3, cat5, cat7, concat, concat_strings, decimal, decimal_string, join, join_strings,
    views,
};
use vstd::prelude::*;

verus! {

/// The name of a primitive type in the names of the helpers.
pub open spec fn primitive_name(ty: Type) -> Option<Seq<char>> {
    match ty {
        Type::Bool => Some("Bool"@),
        Type::U8 => Some("U8"@),
        Type::U16 => Some("U16"@),
        Type::U32 => Some("U32"@),
        Type::U64 => Some("U64"@),
        Type::U128 => Some("U128"@),
        Type::S8 => Some("S8"@),
        Type::S16 => Some("S16"@),
        Type::S32 => Some("S32"@),
        Type::S64 => Some("S64"@),
        Type::S128 => Some("S128"@),
        Type::Float32 => Some("F32"@),
        Type::Float64 => Some("F64"@),
        Type::Char => Some("Char"@),
        Type::String => Some("String"@),
        _ => None,
    }
}

/// The expression that reads a value of a defined type, whose name is
/// given in UpperCamelCase: a resource reads itself, any other type has a
/// function of its own.
pub open spec fn named_reader(name: Seq<char>, resource: bool) -> Seq<char> {
    if resource {
        name + ".deserialize(de)"@
    } else {
        "deserialize"@ + name + "(de)"@
    }
}

/// The expression that writes the value `value` of a defined type, whose
/// name is given in UpperCamelCase.
pub open spec fn named_writer(name: Seq<char>, resource: bool, value: Seq<char>) -> Seq<char> {
    if resource {
        value + ".serialize(out)"@
    } else {
        "serialize"@ + name + "(out, "@ + value + ")"@
    }
}

/// The expression that reads a value of the type.
pub open spec fn reader(typedefs: Seq<TypeDef>, ty: Type) -> Seq<char>
    decreases ty,
{
    match ty {
        Type::Tuple(tys) => "["@ + join(readers(typedefs, tys), ", "@) + "]"@,
        Type::List(inner) => if *inner == Type::U8 {
            "deserializeBytes(de)"@
        } else {
            "deserializeList(de, (de) => "@ + reader(typedefs, *inner) + ")"@
        },
        Type::Option(inner) => "deserializeOption(de, (de) => "@ + reader(typedefs, *inner) + ")"@,
        Type::Result { ok, err } => "deserializeResult(de, "@ + (match ok {
            Some(t) => "(de) => "@ + reader(typedefs, *t),
            None => "() => {}"@,
        }) + ", "@ + (match err {
            Some(t) => "(de) => "@ + reader(typedefs, *t),
            None => "() => {}"@,
        }) + ")"@,
        Type::Id(id) => named_reader(
            upper_camel_case(typedefs[id as int].ident@),
            typedefs[id as int].kind is Resource,
        ),
        _ => "deserialize"@ + primitive_name(ty)->0 + "(de)"@,
    }
}

/// The expressions that read the values of a tuple.
pub open spec fn readers(typedefs: Seq<TypeDef>, tys: Vec<Type>) -> Seq<Seq<char>>
    decreases tys,
{
    Seq::new(
        tys.len() as nat,
        |i: int|
            if 0 <= i < tys.len() {
                reader(typedefs, tys[i])
            } else {
                Seq::empty()
            },
    )
}

/// The expression that writes the value `value` of the type.
pub open spec fn writer(typedefs: Seq<TypeDef>, value: Seq<char>, ty: Type) -> Seq<char>
    decreases ty,
{
    match ty {
        Type::List(inner) => if *inner == Type::U8 {
            "serializeBytes(out, "@ + value + ")"@
        } else {
            "serializeList(out, (out, v) => "@ + writer(typedefs, "v"@, *inner) + ", "@ + value + ")"@
        },
        Type::Tuple(tys) => if tys.len() == 0 {
            "{}"@
        } else {
            "{"@ + join(writers(typedefs, value, tys), ";"@) + "}"@
        },
        Type::Option(inner) => "serializeOption(out, (out, v) => "@ + writer(typedefs, "v"@, *inner)
            + ", "@ + value + ")"@,
        Type::Result { ok, err } => "serializeResult(out, (out, v) => "@ + (match ok {
            Some(t) => writer(typedefs, "v"@, *t),
            None => "{}"@,
        }) + ", (out, v) => "@ + (match err {
            Some(t) => writer(typedefs, "v"@, *t),
            None => "{}"@,
        }) + ", "@ + value + ")"@,
        Type::Id(id) => named_writer(
            upper_camel_case(typedefs[id as int].ident@),
            typedefs[id as int].kind is Resource,
            value,
        ),
        _ => "serialize"@ + primitive_name(ty)->0 + "(out, "@ + value + ")"@,
    }
}

/// The expressions that write the values of the tuple `value`, each taken
/// by its index.
pub open spec fn writers(typedefs: Seq<TypeDef>, value: Seq<char>, tys: Vec<Type>) -> Seq<
    Seq<char>,
>
    decreases tys,
{
    Seq::new(
        tys.len() as nat,
        |i: int|
            if 0 <= i < tys.len() {
                writer(typedefs, value + "["@ + decimal(i as nat) + "]"@, tys[i])
            } else {
                Seq::empty()
            },
    )
}

/// The name of a type without parts in the names of the helpers.
fn primitive(ty: &Type) -> (name: Option<&'static str>)
    ensures
        name is Some == primitive_name(*ty) is Some,
        name matches Some(n) ==> n@ == primitive_name(*ty)->0,
        name is None <==> (*ty is Tuple || *ty is List || *ty is Option || *ty is Result || *ty is Id),
{
    match ty {
        Type::Bool => Some("Bool"),
        Type::U8 => Some("U8"),
        Type::U16 => Some("U16"),
        Type::U32 => Some("U32"),
        Type::U64 => Some("U64"),
        Type::U128 => Some("U128"),
        Type::S8 => Some("S8"),
        Type::S16 => Some("S16"),
        Type::S32 => Some("S32"),
        Type::S64 => Some("S64"),
        Type::S128 => Some("S128"),
        Type::Float32 => Some("F32"),
        Type::Float64 => Some("F64"),
        Type::Char => Some("Char"),
        Type::String => Some("String"),
        _ => None,
    }
}

/// The expression that reads a value of a defined type, whose name is
/// given in UpperCamelCase.
pub fn print_named_reader(name: &str, resource: bool) -> (out: String)
    ensures
        out@ == named_reader(name@, resource),
{
    if resource {
        cat2(name, ".deserialize(de)")
    } else {
        cat3("deserialize", name, "(de)")
    }
}

/// The expression that writes the value `value` of a defined type, whose
/// name is given in UpperCamelCase.
pub fn print_named_writer(name: &str, resource: bool, value: &str) -> (out: String)
    ensures
        out@ == named_writer(name@, resource, value@),
{
    if resource {
        cat2(value, ".serialize(out)")
    } else {
        cat5("serialize", name, "(out, ", value, ")")
    }
}

/// Tells whether a type definition declares a resource.
fn is_resource(kind: &TypeDefKind) -> (b: bool)
    ensures
        b == (*kind is Resource),
{
    match kind {
        TypeDefKind::Resource(_) => true,
        _ => false,
    }
}

/// The expression that reads a value of the type from the deserializer.
pub fn print_deserialize_ty(typedefs: &TypeDefArena, ty: &Type) -> (out: String)
    requires
        ty.resolved(typedefs.len() as nat),
    ensures
        out@ == reader(typedefs@, *ty),
    decreases ty,
{
    match ty {
        Type::Tuple(tys) => {
            let mut parts: Vec<String> = Vec::new();
            let mut i: usize = 0;
            while i < tys.len()
                invariant
                    i <= tys.len(),
                    *ty is Tuple,
                    ty->Tuple_0 == *tys,
                    ty.resolved(typedefs.len() as nat),
                    parts.len() == i,
                    forall|k: int| 0 <= k < i ==> (#[trigger] parts[k])@ == reader(typedefs@, tys[k]),
                decreases tys.len() - i,
            {
                parts.push(print_deserialize_ty(typedefs, &tys[i]));
                i += 1;
            }
            assert(views(parts@) == readers(typedefs@, *tys));
            cat3("[", join_strings(&parts, ", ").as_str(), "]")
        },
        Type::List(inner) => match **inner {
            Type::U8 => String::from_str("deserializeBytes(de)"),
            _ => cat3(
                "deserializeList(de, (de) => ",
                print_deserialize_ty(typedefs, inner).as_str(),
                ")",
            ),
        },
        Type::Option(inner) => cat3(
            "deserializeOption(de, (de) => ",
            print_deserialize_ty(typedefs, inner).as_str(),
            ")",
        ),
        Type::Result { ok, err } => {
            let ok_text = match ok {
                Some(t) => cat2("(de) => ", print_deserialize_ty(typedefs, t).as_str()),
                None => String::from_str("() => {}"),
            };
            let err_text = match err {
                Some(t) => cat2("(de) => ", print_deserialize_ty(typedefs, t).as_str()),
                None => String::from_str("() => {}"),
            };
            cat5("deserializeResult(de, ", ok_text.as_str(), ", ", err_text.as_str(), ")")
        },
        Type::Id(id) => {
            let name = to_upper_camel_case(typedefs[*id].ident.as_str());
            print_named_reader(name.as_str(), is_resource(&typedefs[*id].kind))
        },
        _ => {
            let name = primitive(ty).unwrap();
            cat3("deserialize", name, "(de)")
        },
    }
}

/// The expression that writes the value `ident` of the type to the buffer.
pub fn print_serialize_ty(typedefs: &TypeDefArena, ident: &str, ty: &Type) -> (out: String)
    requires
        ty.resolved(typedefs.len() as nat),
    ensures
        out@ == writer(typedefs@, ident@, *ty),
    decreases ty,
{
    match ty {
        Type::List(inner) => match **inner {
            Type::U8 => cat3("serializeBytes(out, ", ident, ")"),
            _ => cat5(
                "serializeList(out, (out, v) => ",
                print_serialize_ty(typedefs, "v", inner).as_str(),
                ", ",
                ident,
                ")",
            ),
        },
        Type::Tuple(tys) => {
            if tys.len() == 0 {
                return String::from_str("{}");
            }
            let mut parts: Vec<String> = Vec::new();
            let mut i: usize = 0;
            while i < tys.len()
                invariant
                    i <= tys.len(),
                    *ty is Tuple,
                    ty->Tuple_0 == *tys,
                    ty.resolved(typedefs.len() as nat),
                    parts.len() == i,
                    forall|k: int|
                        0 <= k < i ==> (#[trigger] parts[k])@ == writer(
                            typedefs@,
                            ident@ + "["@ + decimal(k as nat) + "]"@,
                            tys[k],
                        ),
                decreases tys.len() - i,
            {
                let element = cat5("", ident, "[", decimal_string(i).as_str(), "]");
                proof {
                    reveal_strlit("");
                    assert(""@ + ident@ == ident@);
                }
                parts.push(print_serialize_ty(typedefs, element.as_str(), &tys[i]));
                i += 1;
            }
            assert(views(parts@) == writers(typedefs@, ident@, *tys));
            cat3("{", join_strings(&parts, ";").as_str(), "}")
        },
        Type::Option(inner) => cat5(
            "serializeOption(out, (out, v) => ",
            print_serialize_ty(typedefs, "v", inner).as_str(),
            ", ",
            ident,
            ")",
        ),
        Type::Result { ok, err } => {
            let ok_text = match ok {
                Some(t) => print_serialize_ty(typedefs, "v", t),
                None => String::from_str("{}"),
            };
            let err_text = match err {
                Some(t) => print_serialize_ty(typedefs, "v", t),
                None => String::from_str("{}"),
            };
            cat7(
                "serializeResult(out, (out, v) => ",
                ok_text.as_str(),
                ", (out, v) => ",
                err_text.as_str(),
                ", ",
                ident,
                ")",
            )
        },
        Type::Id(id) => {
            let name = to_upper_camel_case(typedefs[*id].ident.as_str());
            print_named_writer(name.as_str(), is_resource(&typedefs[*id].kind), ident)
        },
        _ => {
            let name = primitive(ty).unwrap();
            cat5("serialize", name, "(out, ", ident, ")")
        },
    }
}

/// What stands before the reader of a single result.
pub const ONE_RESULT_HEAD: &'static str =
    "\n        .then(r => r.arrayBuffer())\n        .then(bytes => {\n            const de = new Deserializer(new Uint8Array(bytes))\n\n            return ";

/// What stands behind the reader of a single result.
pub const ONE_RESULT_TAIL: &'static str = "\n        })";

/// What stands before the readers of several results.
pub const RESULTS_HEAD: &'static str =
    "\n        .then(r => r.arrayBuffer())\n        .then(bytes => {\n            const de = new Deserializer(Uint8Array.from(bytes))\n\n            return [";

/// What stands behind the readers of several results.
pub const RESULTS_TAIL: &'static str = "]\n        })";

/// How the name of every reader begins.
pub const READER_HEAD: &'static str = "function deserialize";

/// How the name of every writer begins.
pub const WRITER_HEAD: &'static str = "function serialize";

/// The head of a reader that reads a tag and tells the cases apart by it.
pub const SWITCH_ON_TAG: &'static str =
    "(de) {\n    const tag = deserializeU32(de)\n\n    switch (tag) {\n        ";

/// The end of the reader of a variant: a tag of no case is an error.
pub const UNKNOWN_VARIANT_TAG: &'static str =
    "\n\n        default:\n            throw new Error(`unknown variant case ${tag}`)\n    }\n}";

/// The end of the reader of an enum: a tag of no case is an error.
pub const UNKNOWN_ENUM_TAG: &'static str =
    "\n\n        default:\n            throw new Error(`unknown enum case ${tag}`)\n    }\n}";

/// The end of the reader of a union: a tag of no case is an error.
pub const UNKNOWN_UNION_TAG: &'static str =
    "\n\n        default:\n            throw new Error(`unknown union case ${tag}`)\n    }\n}";

/// The head of the body of a writer.
pub const WRITER_BODY: &'static str = "(out, val) {\n    ";

/// The end of the writer of a variant: a value of no case is an error.
pub const UNKNOWN_VARIANT_VALUE: &'static str = "\n\n    throw new Error(\"unknown variant case\")\n}";

/// The end of the writer of a union: a value of no case is an error.
pub const UNKNOWN_UNION_VALUE: &'static str = "\n\n    throw new Error(\"unknown union case\")\n}";

/// The head of the writer of an enum, which tells the cases apart by their
/// names.
pub const SWITCH_ON_VALUE: &'static str = "(out, val) {\n    switch (val) {\n        ";

/// The end of the writer of an enum: a name of no case is an error.
pub const UNKNOWN_ENUM_VALUE: &'static str =
    "\n\n        default:\n            throw new Error(\"unknown enum case\")\n    }\n}";

/// What follows the call of a function: the response is read as bytes, and
/// the results are read from them, one as it is, several as an array.
pub open spec fn result_reader(typedefs: Seq<TypeDef>, result: FunctionResult) -> Seq<char> {
    if result.spec_len() == 0 {
        Seq::empty()
    } else if result.spec_len() == 1 {
        ONE_RESULT_HEAD@ + reader(typedefs, result.spec_ty(0)) + ONE_RESULT_TAIL@
    } else {
        RESULTS_HEAD@ + join(
            Seq::new(result.spec_len(), |i: int| reader(typedefs, result.spec_ty(i))),
            ", "@,
        ) + RESULTS_TAIL@
    }
}

/// The name of the integer behind a set of flags in the names of the
/// helpers.
pub open spec fn int_name(repr: Int) -> Seq<char> {
    match repr {
        Int::U8 => "U8"@,
        Int::U16 => "U16"@,
        Int::U32 => "U32"@,
        Int::U64 => "U64"@,
        Int::U128 => "U128"@,
    }
}

/// The reader of an alias, which reads what it stands for.
pub open spec fn alias_reader(typedefs: Seq<TypeDef>, ident: Seq<char>, ty: Type) -> Seq<char> {
    READER_HEAD@ + ident + "(de) {\n    return "@ + reader(typedefs, ty) + "\n}"@
}

/// The reader of a record: an object with one property for each field, named
/// by the field in lower camel case, in the order of the fields.
pub open spec fn record_reader(typedefs: Seq<TypeDef>, ident: Seq<char>, fields: Seq<RecordField>) -> Seq<
    char,
> {
    READER_HEAD@ + ident + "(de) {\n    return {\n        "@ + join(
        Seq::new(
            fields.len(),
            |i: int| lower_camel_case(fields[i].id@) + ": "@ + reader(typedefs, fields[i].ty),
        ),
        ",\n"@,
    ) + "\n    }\n}"@
}

/// The reader of a set of `n` flags: that of the integer behind them.
pub open spec fn flags_reader(ident: Seq<char>, n: nat) -> Seq<char> {
    READER_HEAD@ + ident + "(de) {\n    return deserialize"@ + int_name(flags_int(n)) + "(de)\n}"@
}

/// One branch of reading a tagged value: the tag, and the value by its name.
pub open spec fn tagged_reader_case(tag: nat, name: Seq<char>, inner: Seq<char>) -> Seq<char> {
    "case "@ + decimal(tag) + ":\n    return { "@ + name + ": "@ + inner + " }\n"@
}

/// The reader of a variant: the tag is read as a `u32`, and the value is an
/// object whose one property is named by the case in upper camel case and
/// holds the payload, or `null` where the case has none.
pub open spec fn variant_reader(typedefs: Seq<TypeDef>, ident: Seq<char>, cases: Seq<VariantCase>) -> Seq<
    char,
> {
    READER_HEAD@ + ident + SWITCH_ON_TAG@ + concat(
        Seq::new(
            cases.len(),
            |i: int|
                tagged_reader_case(
                    i as nat,
                    upper_camel_case(cases[i].id@),
                    match cases[i].ty {
                        Some(ty) => reader(typedefs, ty),
                        None => "null"@,
                    },
                ),
        ),
    ) + UNKNOWN_VARIANT_TAG@
}

/// The reader of an enum: the tag is read as a `u32`, and the value is the
/// name of the case in upper camel case.
pub open spec fn enum_reader(ident: Seq<char>, cases: Seq<EnumCase>) -> Seq<char> {
    READER_HEAD@ + ident + SWITCH_ON_TAG@ + concat(
        Seq::new(
            cases.len(),
            |i: int|
                "case "@ + decimal(i as nat) + ":\n    return \""@ + upper_camel_case(cases[i].id@)
                    + "\"\n"@,
        ),
    ) + UNKNOWN_ENUM_TAG@
}

/// The reader of a union: the tag is read as a `u32`, and the value is an
/// object whose one property has the name of the case and holds the payload.
pub open spec fn union_reader(typedefs: Seq<TypeDef>, ident: Seq<char>, cases: Seq<UnionCase>) -> Seq<
    char,
> {
    READER_HEAD@ + ident + SWITCH_ON_TAG@ + concat(
        Seq::new(
            cases.len(),
            |i: int|
                tagged_reader_case(
                    i as nat,
                    union_names(typedefs, cases)[i],
                    reader(typedefs, cases[i].ty),
                ),
        ),
    ) + UNKNOWN_UNION_TAG@
}

/// The writer of an alias, which writes what it stands for.
pub open spec fn alias_writer(typedefs: Seq<TypeDef>, ident: Seq<char>, ty: Type) -> Seq<char> {
    WRITER_HEAD@ + ident + WRITER_BODY@ + writer(typedefs, "val"@, ty) + "\n}"@
}

/// The writer of a record: the fields are written in their order, each read
/// from the property that the reader gives it.
pub open spec fn record_writer(typedefs: Seq<TypeDef>, ident: Seq<char>, fields: Seq<RecordField>) -> Seq<
    char,
> {
    WRITER_HEAD@ + ident + WRITER_BODY@ + join(
        Seq::new(
            fields.len(),
            |i: int| writer(typedefs, "val."@ + lower_camel_case(fields[i].id@), fields[i].ty),
        ),
        ",\n"@,
    ) + "\n}"@
}

/// The writer of a set of `n` flags: that of the integer behind them.
pub open spec fn flags_writer(ident: Seq<char>, n: nat) -> Seq<char> {
    WRITER_HEAD@ + ident + "(out, val) {\n    return serialize"@ + int_name(flags_int(n))
        + "(out, val)\n}"@
}

/// One case of the writer of a variant: where the value has the property of
/// the case, the tag is written and then the payload.
pub open spec fn variant_writer_case(typedefs: Seq<TypeDef>, tag: nat, case: VariantCase) -> Seq<
    char,
> {
    let value = "val."@ + upper_camel_case(case.id@);
    "if ("@ + value + ") {\n    serializeU32(out, "@ + decimal(tag) + ");\n    "@ + (match case.ty {
        Some(ty) => writer(typedefs, value, ty),
        None => Seq::empty(),
    }) + "\n\n    return\n}\n"@
}

/// The writer of a variant, case by case in the order of the cases.
pub open spec fn variant_writer(typedefs: Seq<TypeDef>, ident: Seq<char>, cases: Seq<VariantCase>) -> Seq<
    char,
> {
    WRITER_HEAD@ + ident + WRITER_BODY@ + concat(
        Seq::new(cases.len(), |i: int| variant_writer_case(typedefs, i as nat, cases[i])),
    ) + UNKNOWN_VARIANT_VALUE@
}

/// The writer of an enum: the tag of the case that the value names.
pub open spec fn enum_writer(ident: Seq<char>, cases: Seq<EnumCase>) -> Seq<char> {
    WRITER_HEAD@ + ident + SWITCH_ON_VALUE@ + concat(
        Seq::new(
            cases.len(),
            |i: int|
                "case \""@ + upper_camel_case(cases[i].id@) + "\":\n    serializeU32(out, "@
                    + decimal(i as nat) + ")\n    return\n"@,
        ),
    ) + UNKNOWN_ENUM_VALUE@
}

/// One case of the writer of a union: where the value has the property of
/// the case, the tag is written and then the payload.
pub open spec fn union_writer_case(tag: nat, value: Seq<char>, inner: Seq<char>) -> Seq<char> {
    "if ("@ + value + ") {\n    serializeU32(out, "@ + decimal(tag) + ");\n\n    return "@ + inner
        + "\n}\n                "@
}

/// The writer of a union, case by case in the order of the cases.
pub open spec fn union_writer(typedefs: Seq<TypeDef>, ident: Seq<char>, cases: Seq<UnionCase>) -> Seq<
    char,
> {
    WRITER_HEAD@ + ident + WRITER_BODY@ + concat(
        Seq::new(
            cases.len(),
            |i: int|
                union_writer_case(
                    i as nat,
                    "val."@ + union_names(typedefs, cases)[i],
                    writer(typedefs, "val."@ + union_names(typedefs, cases)[i], cases[i].ty),
                ),
        ),
    ) + UNKNOWN_UNION_VALUE@
}

/// The function that reads a value of a type definition; a resource has
/// none.
pub open spec fn typedef_reader(typedefs: Seq<TypeDef>, id: int) -> Seq<char> {
    let ident = upper_camel_case(typedefs[id].ident@);
    match typedefs[id].kind {
        TypeDefKind::Alias(ty) => alias_reader(typedefs, ident, ty),
        TypeDefKind::Record(fields) => record_reader(typedefs, ident, fields@),
        TypeDefKind::Flags(fields) => flags_reader(ident, fields.len() as nat),
        TypeDefKind::Variant(cases) => variant_reader(typedefs, ident, cases@),
        TypeDefKind::Enum(cases) => enum_reader(ident, cases@),
        TypeDefKind::Union(cases) => union_reader(typedefs, ident, cases@),
        TypeDefKind::Resource(_) => Seq::empty(),
    }
}

/// The function that writes a value of a type definition; a resource has
/// none.
pub open spec fn typedef_writer(typedefs: Seq<TypeDef>, id: int) -> Seq<char> {
    let ident = upper_camel_case(typedefs[id].ident@);
    match typedefs[id].kind {
        TypeDefKind::Alias(ty) => alias_writer(typedefs, ident, ty),
        TypeDefKind::Record(fields) => record_writer(typedefs, ident, fields@),
        TypeDefKind::Flags(fields) => flags_writer(ident, fields.len() as nat),
        TypeDefKind::Variant(cases) => variant_writer(typedefs, ident, cases@),
        TypeDefKind::Enum(cases) => enum_writer(ident, cases@),
        TypeDefKind::Union(cases) => union_writer(typedefs, ident, cases@),
        TypeDefKind::Resource(_) => Seq::empty(),
    }
}

/// The name of the integer behind the flags in the names of the helpers.
fn flags_int_name(fields: &[FlagsField]) -> (name: &'static str)
    requires
        fields.len() <= MAX_FLAGS,
    ensures
        name@ == int_name(flags_int(fields.len() as nat)),
{
    match flags_repr(fields) {
        Int::U8 => "U8",
        Int::U16 => "U16",
        Int::U32 => "U32",
        Int::U64 => "U64",
        Int::U128 => "U128",
    }
}

/// What follows the call of a function with this result.
pub fn print_deserialize_function_result(typedefs: &TypeDefArena, result: &FunctionResult) -> (out:
    String)
    requires
        result.resolved(typedefs.len() as nat),
    ensures
        out@ == result_reader(typedefs@, *result),
{
    let n = result.len();
    if n == 0 {
        String::new()
    } else if n == 1 {
        cat3(
            ONE_RESULT_HEAD,
            print_deserialize_ty(typedefs, result.ty(0)).as_str(),
            ONE_RESULT_TAIL,
        )
    } else {
        let mut parts: Vec<String> = Vec::new();
        let mut i: usize = 0;
        while i < n
            invariant
                i <= n,
                n == result.spec_len(),
                result.resolved(typedefs.len() as nat),
                parts.len() == i,
                forall|k: int|
                    0 <= k < i ==> (#[trigger] parts[k])@ == reader(typedefs@, result.spec_ty(k)),
            decreases n - i,
        {
            parts.push(print_deserialize_ty(typedefs, result.ty(i)));
            i += 1;
        }
        assert(views(parts@) == Seq::new(
            result.spec_len(),
            |i: int| reader(typedefs@, result.spec_ty(i)),
        ));
        cat3(RESULTS_HEAD, join_strings(&parts, ", ").as_str(), RESULTS_TAIL)
    }
}

/// Writes the reader of an alias.
pub fn print_deserialize_alias(typedefs: &TypeDefArena, ident: &str, ty: &Type) -> (out: String)
    requires
        ty.resolved(typedefs.len() as nat),
    ensures
        out@ == alias_reader(typedefs@, ident@, *ty),
{
    cat5(
        READER_HEAD,
        ident,
        "(de) {\n    return ",
        print_deserialize_ty(typedefs, ty).as_str(),
        "\n}",
    )
}

/// Writes the reader of a record.
pub fn print_deserialize_record(typedefs: &TypeDefArena, ident: &str, fields: &[RecordField]) -> (out:
    String)
    requires
        forall|i: int| 0 <= i < fields.len() ==> (#[trigger] fields[i]).ty.resolved(typedefs.len() as nat),
    ensures
        out@ == record_reader(typedefs@, ident@, fields@),
{
    let mut parts: Vec<String> = Vec::new();
    let mut i: usize = 0;
    while i < fields.len()
        invariant
            i <= fields.len(),
            forall|k: int|
                0 <= k < fields.len() ==> (#[trigger] fields[k]).ty.resolved(typedefs.len() as nat),
            parts.len() == i,
            forall|k: int|
                0 <= k < i ==> (#[trigger] parts[k])@ == lower_camel_case(fields[k].id@) + ": "@
                    + reader(typedefs@, fields[k].ty),
        decreases fields.len() - i,
    {
        let name = to_lower_camel_case(fields[i].id.as_str());
        parts.push(
            cat3(name.as_str(), ": ", print_deserialize_ty(typedefs, &fields[i].ty).as_str()),
        );
        i += 1;
    }
    assert(views(parts@) == Seq::new(
        fields@.len(),
        |i: int| lower_camel_case(fields[i].id@) + ": "@ + reader(typedefs@, fields[i].ty),
    ));
    cat5(
        READER_HEAD,
        ident,
        "(de) {\n    return {\n        ",
        join_strings(&parts, ",\n").as_str(),
        "\n    }\n}",
    )
}

/// Writes the reader of a set of flags.
pub fn print_deserialize_flags(ident: &str, fields: &[FlagsField]) -> (out: String)
    requires
        fields.len() <= MAX_FLAGS,
    ensures
        out@ == flags_reader(ident@, fields.len() as nat),
{
    cat5(READER_HEAD, ident, "(de) {\n    return deserialize", flags_int_name(fields), "(de)\n}")
}

/// One branch of reading a tagged value.
pub fn print_tagged_reader_case(tag: usize, name: &str, inner: &str) -> (out: String)
    ensures
        out@ == tagged_reader_case(tag as nat, name@, inner@),
{
    cat7("case ", decimal_string(tag).as_str(), ":\n    return { ", name, ": ", inner, " }\n")
}

/// Writes the reader of a variant.
pub fn print_deserialize_variant(typedefs: &TypeDefArena, ident: &str, cases: &[VariantCase]) -> (out:
    String)
    requires
        forall|i: int|
            0 <= i < cases.len() ==> ((#[trigger] cases[i]).ty matches Some(ty) ==> ty.resolved(
                typedefs.len() as nat,
            )),
    ensures
        out@ == variant_reader(typedefs@, ident@, cases@),
{
    let ghost wanted = Seq::new(
        cases@.len(),
        |i: int|
            tagged_reader_case(
                i as nat,
                upper_camel_case(cases[i].id@),
                match cases[i].ty {
                    Some(ty) => reader(typedefs@, ty),
                    None => "null"@,
                },
            ),
    );
    let mut parts: Vec<String> = Vec::new();
    let mut i: usize = 0;
    while i < cases.len()
        invariant
            i <= cases.len(),
            forall|k: int|
                0 <= k < cases.len() ==> ((#[trigger] cases[k]).ty matches Some(ty)
                    ==> ty.resolved(typedefs.len() as nat)),
            wanted.len() == cases.len(),
            forall|k: int|
                0 <= k < cases.len() ==> #[trigger] wanted[k] == tagged_reader_case(
                    k as nat,
                    upper_camel_case(cases[k].id@),
                    match cases[k].ty {
                        Some(ty) => reader(typedefs@, ty),
                        None => "null"@,
                    },
                ),
            parts.len() == i,
            forall|k: int| 0 <= k < i ==> (#[trigger] parts[k])@ == wanted[k],
        decreases cases.len() - i,
    {
        let inner = match &cases[i].ty {
            Some(ty) => print_deserialize_ty(typedefs, ty),
            None => String::from_str("null"),
        };
        let name = to_upper_camel_case(cases[i].id.as_str());
        parts.push(print_tagged_reader_case(i, name.as_str(), inner.as_str()));
        i += 1;
    }
    assert(views(parts@) == wanted);
    cat5(
        READER_HEAD,
        ident,
        SWITCH_ON_TAG,
        concat_strings(&parts).as_str(),
        UNKNOWN_VARIANT_TAG,
    )
}

/// Writes the reader of an enum.
pub fn print_deserialize_enum(ident: &str, cases: &[EnumCase]) -> (out: String)
    ensures
        out@ == enum_reader(ident@, cases@),
{
    let ghost wanted = Seq::new(
        cases@.len(),
        |i: int|
            "case "@ + decimal(i as nat) + ":\n    return \""@ + upper_camel_case(cases[i].id@)
                + "\"\n"@,
    );
    let mut parts: Vec<String> = Vec::new();
    let mut i: usize = 0;
    while i < cases.len()
        invariant
            i <= cases.len(),
            wanted.len() == cases.len(),
            forall|k: int|
                0 <= k < cases.len() ==> #[trigger] wanted[k] == "case "@ + decimal(k as nat)
                    + ":\n    return \""@ + upper_camel_case(cases[k].id@) + "\"\n"@,
            parts.len() == i,
            forall|k: int| 0 <= k < i ==> (#[trigger] parts[k])@ == wanted[k],
        decreases cases.len() - i,
    {
        let name = to_upper_camel_case(cases[i].id.as_str());
        parts.push(
            cat5("case ", decimal_string(i).as_str(), ":\n    return \"", name.as_str(), "\"\n"),
        );
        i += 1;
    }
    assert(views(parts@) == wanted);
    cat5(READER_HEAD, ident, SWITCH_ON_TAG, concat_strings(&parts).as_str(), UNKNOWN_ENUM_TAG)
}

/// Writes the reader of a union.
pub fn print_deserialize_union(typedefs: &TypeDefArena, ident: &str, cases: &[UnionCase]) -> (out:
    String)
    requires
        forall|i: int| 0 <= i < cases.len() ==> (#[trigger] cases[i]).ty.resolved(typedefs.len() as nat),
    ensures
        out@ == union_reader(typedefs@, ident@, cases@),
{
    let names = union_case_names(typedefs, cases);
    let ghost wanted = Seq::new(
        cases@.len(),
        |i: int|
            tagged_reader_case(
                i as nat,
                union_names(typedefs@, cases@)[i],
                reader(typedefs@, cases[i].ty),
            ),
    );
    assert(names.len() == cases.len()) by {
        assert(views(names@).len() == names.len());
    }
    let mut parts: Vec<String> = Vec::new();
    let mut i: usize = 0;
    while i < cases.len()
        invariant
            i <= cases.len(),
            names.len() == cases.len(),
            views(names@) == union_names(typedefs@, cases@),
            forall|k: int|
                0 <= k < cases.len() ==> (#[trigger] cases[k]).ty.resolved(typedefs.len() as nat),
            wanted.len() == cases.len(),
            forall|k: int|
                0 <= k < cases.len() ==> #[trigger] wanted[k] == tagged_reader_case(
                    k as nat,
                    union_names(typedefs@, cases@)[k],
                    reader(typedefs@, cases[k].ty),
                ),
            parts.len() == i,
            forall|k: int| 0 <= k < i ==> (#[trigger] parts[k])@ == wanted[k],
        decreases cases.len() - i,
    {
        assert(names[i as int]@ == views(names@)[i as int]);
        let inner = print_deserialize_ty(typedefs, &cases[i].ty);
        parts.push(print_tagged_reader_case(i, names[i].as_str(), inner.as_str()));
        i += 1;
    }
    assert(views(parts@) == wanted);
    cat5(READER_HEAD, ident, SWITCH_ON_TAG, concat_strings(&parts).as_str(), UNKNOWN_UNION_TAG)
}

/// The function that reads a value of the type definition.
pub fn print_deserialize_typedef(typedefs: &TypeDefArena, id: TypeDefId) -> (out: String)
    requires
        arena_resolved(typedefs@),
        id < typedefs.len(),
    ensures
        out@ == typedef_reader(typedefs@, id as int),
{
    let typedef = &typedefs[id];
    assert(typedef.kind.resolved(typedefs.len() as nat));
    let ident = to_upper_camel_case(typedef.ident.as_str());
    match &typedef.kind {
        TypeDefKind::Alias(ty) => print_deserialize_alias(typedefs, ident.as_str(), ty),
        TypeDefKind::Record(fields) => print_deserialize_record(
            typedefs,
            ident.as_str(),
            fields.as_slice(),
        ),
        TypeDefKind::Flags(fields) => print_deserialize_flags(ident.as_str(), fields.as_slice()),
        TypeDefKind::Variant(cases) => print_deserialize_variant(
            typedefs,
            ident.as_str(),
            cases.as_slice(),
        ),
        TypeDefKind::Enum(cases) => print_deserialize_enum(ident.as_str(), cases.as_slice()),
        TypeDefKind::Union(cases) => print_deserialize_union(
            typedefs,
            ident.as_str(),
            cases.as_slice(),
        ),
        TypeDefKind::Resource(_) => String::new(),
    }
}

/// Writes the writer of an alias.
pub fn print_serialize_alias(typedefs: &TypeDefArena, ident: &str, ty: &Type) -> (out: String)
    requires
        ty.resolved(typedefs.len() as nat),
    ensures
        out@ == alias_writer(typedefs@, ident@, *ty),
{
    cat5(WRITER_HEAD, ident, WRITER_BODY, print_serialize_ty(typedefs, "val", ty).as_str(), "\n}")
}

/// Writes the writer of a record.
pub fn print_serialize_record(typedefs: &TypeDefArena, ident: &str, fields: &[RecordField]) -> (out:
    String)
    requires
        forall|i: int| 0 <= i < fields.len() ==> (#[trigger] fields[i]).ty.resolved(typedefs.len() as nat),
    ensures
        out@ == record_writer(typedefs@, ident@, fields@),
{
    let mut parts: Vec<String> = Vec::new();
    let mut i: usize = 0;
    while i < fields.len()
        invariant
            i <= fields.len(),
            forall|k: int|
                0 <= k < fields.len() ==> (#[trigger] fields[k]).ty.resolved(typedefs.len() as nat),
            parts.len() == i,
            forall|k: int|
                0 <= k < i ==> (#[trigger] parts[k])@ == writer(
                    typedefs@,
                    "val."@ + lower_camel_case(fields[k].id@),
                    fields[k].ty,
                ),
        decreases fields.len() - i,
    {
        let value = cat2("val.", to_lower_camel_case(fields[i].id.as_str()).as_str());
        parts.push(print_serialize_ty(typedefs, value.as_str(), &fields[i].ty));
        i += 1;
    }
    assert(views(parts@) == Seq::new(
        fields@.len(),
        |i: int| writer(typedefs@, "val."@ + lower_camel_case(fields[i].id@), fields[i].ty),
    ));
    cat5(WRITER_HEAD, ident, WRITER_BODY, join_strings(&parts, ",\n").as_str(), "\n}")
}

/// Writes the writer of a set of flags.
pub fn print_serialize_flags(ident: &str, fields: &[FlagsField]) -> (out: String)
    requires
        fields.len() <= MAX_FLAGS,
    ensures
        out@ == flags_writer(ident@, fields.len() as nat),
{
    cat5(
        WRITER_HEAD,
        ident,
        "(out, val) {\n    return serialize",
        flags_int_name(fields),
        "(out, val)\n}",
    )
}

/// Writes the writer of a variant.
pub fn print_serialize_variant(typedefs: &TypeDefArena, ident: &str, cases: &[VariantCase]) -> (out:
    String)
    requires
        forall|i: int|
            0 <= i < cases.len() ==> ((#[trigger] cases[i]).ty matches Some(ty) ==> ty.resolved(
                typedefs.len() as nat,
            )),
    ensures
        out@ == variant_writer(typedefs@, ident@, cases@),
{
    let mut parts: Vec<String> = Vec::new();
    let mut i: usize = 0;
    while i < cases.len()
        invariant
            i <= cases.len(),
            forall|k: int|
                0 <= k < cases.len() ==> ((#[trigger] cases[k]).ty matches Some(ty)
                    ==> ty.resolved(typedefs.len() as nat)),
            parts.len() == i,
            forall|k: int|
                0 <= k < i ==> (#[trigger] parts[k])@ == variant_writer_case(
                    typedefs@,
                    k as nat,
                    cases[k],
                ),
        decreases cases.len() - i,
    {
        let value = cat2("val.", to_upper_camel_case(cases[i].id.as_str()).as_str());
        let inner = match &cases[i].ty {
            Some(ty) => print_serialize_ty(typedefs, value.as_str(), ty),
            None => String::new(),
        };
        parts.push(
            cat7(
                "if (",
                value.as_str(),
                ") {\n    serializeU32(out, ",
                decimal_string(i).as_str(),
                ");\n    ",
                inner.as_str(),
                "\n\n    return\n}\n",
            ),
        );
        i += 1;
    }
    assert(views(parts@) == Seq::new(
        cases@.len(),
        |i: int| variant_writer_case(typedefs@, i as nat, cases[i]),
    ));
    cat5(
        WRITER_HEAD,
        ident,
        WRITER_BODY,
        concat_strings(&parts).as_str(),
        UNKNOWN_VARIANT_VALUE,
    )
}

/// Writes the writer of an enum.
pub fn print_serialize_enum(ident: &str, cases: &[EnumCase]) -> (out: String)
    ensures
        out@ == enum_writer(ident@, cases@),
{
    let ghost wanted = Seq::new(
        cases@.len(),
        |i: int|
            "case \""@ + upper_camel_case(cases[i].id@) + "\":\n    serializeU32(out, "@ + decimal(
                i as nat,
            ) + ")\n    return\n"@,
    );
    let mut parts: Vec<String> = Vec::new();
    let mut i: usize = 0;
    while i < cases.len()
        invariant
            i <= cases.len(),
            wanted.len() == cases.len(),
            forall|k: int|
                0 <= k < cases.len() ==> #[trigger] wanted[k] == "case \""@ + upper_camel_case(
                    cases[k].id@,
                ) + "\":\n    serializeU32(out, "@ + decimal(k as nat) + ")\n    return\n"@,
            parts.len() == i,
            forall|k: int| 0 <= k < i ==> (#[trigger] parts[k])@ == wanted[k],
        decreases cases.len() - i,
    {
        let name = to_upper_camel_case(cases[i].id.as_str());
        parts.push(
            cat5(
                "case \"",
                name.as_str(),
                "\":\n    serializeU32(out, ",
                decimal_string(i).as_str(),
                ")\n    return\n",
            ),
        );
        i += 1;
    }
    assert(views(parts@) == wanted);
    cat5(WRITER_HEAD, ident, SWITCH_ON_VALUE, concat_strings(&parts).as_str(), UNKNOWN_ENUM_VALUE)
}

/// One branch of writing a value of a union.
pub fn print_union_writer_case(tag: usize, value: &str, inner: &str) -> (out: String)
    ensures
        out@ == union_writer_case(tag as nat, value@, inner@),
{
    cat7(
        "if (",
        value,
        ") {\n    serializeU32(out, ",
        decimal_string(tag).as_str(),
        ");\n\n    return ",
        inner,
        "\n}\n                ",
    )
}

/// Writes the writer of a union.
pub fn print_serialize_union(typedefs: &TypeDefArena, ident: &str, cases: &[UnionCase]) -> (out:
    String)
    requires
        forall|i: int| 0 <= i < cases.len() ==> (#[trigger] cases[i]).ty.resolved(typedefs.len() as nat),
    ensures
        out@ == union_writer(typedefs@, ident@, cases@),
{
    let names = union_case_names(typedefs, cases);
    let ghost wanted = Seq::new(
        cases@.len(),
        |i: int|
            union_writer_case(
                i as nat,
                "val."@ + union_names(typedefs@, cases@)[i],
                writer(typedefs@, "val."@ + union_names(typedefs@, cases@)[i], cases[i].ty),
            ),
    );
    assert(names.len() == cases.len()) by {
        assert(views(names@).len() == names.len());
    }
    let mut parts: Vec<String> = Vec::new();
    let mut i: usize = 0;
    while i < cases.len()
        invariant
            i <= cases.len(),
            names.len() == cases.len(),
            views(names@) == union_names(typedefs@, cases@),
            forall|k: int|
                0 <= k < cases.len() ==> (#[trigger] cases[k]).ty.resolved(typedefs.len() as nat),
            wanted.len() == cases.len(),
            forall|k: int|
                0 <= k < cases.len() ==> #[trigger] wanted[k] == union_writer_case(
                    k as nat,
                    "val."@ + union_names(typedefs@, cases@)[k],
                    writer(typedefs@, "val."@ + union_names(typedefs@, cases@)[k], cases[k].ty),
                ),
            parts.len() == i,
            forall|k: int| 0 <= k < i ==> (#[trigger] parts[k])@ == wanted[k],
        decreases cases.len() - i,
    {
        assert(names[i as int]@ == views(names@)[i as int]);
        let value = cat2("val.", names[i].as_str());
        let inner = print_serialize_ty(typedefs, value.as_str(), &cases[i].ty);
        parts.push(print_union_writer_case(i, value.as_str(), inner.as_str()));
        i += 1;
    }
    assert(views(parts@) == wanted);
    cat5(WRITER_HEAD, ident, WRITER_BODY, concat_strings(&parts).as_str(), UNKNOWN_UNION_VALUE)
}

/// The function that writes a value of the type definition.
pub fn print_serialize_typedef(typedefs: &TypeDefArena, id: TypeDefId) -> (out: String)
    requires
        arena_resolved(typedefs@),
        id < typedefs.len(),
    ensures
        out@ == typedef_writer(typedefs@, id as int),
{
    let typedef = &typedefs[id];
    assert(typedef.kind.resolved(typedefs.len() as nat));
    let ident = to_upper_camel_case(typedef.ident.as_str());
    match &typedef.kind {
        TypeDefKind::Alias(ty) => print_serialize_alias(typedefs, ident.as_str(), ty),
        TypeDefKind::Record(fields) => print_serialize_record(
            typedefs,
            ident.as_str(),
            fields.as_slice(),
        ),
        TypeDefKind::Flags(fields) => print_serialize_flags(ident.as_str(), fields.as_slice()),
        TypeDefKind::Variant(cases) => print_serialize_variant(
            typedefs,
            ident.as_str(),
            cases.as_slice(),
        ),
        TypeDefKind::Enum(cases) => print_serialize_enum(ident.as_str(), cases.as_slice()),
        TypeDefKind::Union(cases) => print_serialize_union(
            typedefs,
            ident.as_str(),
            cases.as_slice(),
        ),
        TypeDefKind::Resource(_) => String::new(),
    }
}

/// A generator of script text for one interface. A generator hands out its
/// interface and what is known of the use of its types; what it prints for
/// types, type definitions and results follows from the interface.
pub trait JavaScriptGenerator {
    /// The interface, which is resolved.
    spec fn subject(&self) -> Interface;

    /// The interface that the script is generated for.
    fn interface(&self) -> (interface: &Interface)
        ensures
            *interface == self.subject(),
            interface.resolved(),
    ;

    /// How the functions of the interface use its type definitions.
    fn infos(&self) -> (infos: &TypeInfos)
        ensures
            infos@ == usage(self.subject().typedefs@, self.subject().functions@),
    ;

    fn print_deserialize_function_result(&self, result: &FunctionResult) -> (out: String)
        requires
            result.resolved(self.subject().typedefs.len() as nat),
        ensures
            out@ == result_reader(self.subject().typedefs@, *result),
    {
        print_deserialize_function_result(&self.interface().typedefs, result)
    }

    fn print_deserialize_ty(&self, ty: &Type) -> (out: String)
        requires
            ty.resolved(self.subject().typedefs.len() as nat),
        ensures
            out@ == reader(self.subject().typedefs@, *ty),
    {
        print_deserialize_ty(&self.interface().typedefs, ty)
    }

    fn print_deserialize_typedef(&self, id: TypeDefId) -> (out: String)
        requires
            id < self.subject().typedefs.len(),
        ensures
            out@ == typedef_reader(self.subject().typedefs@, id as int),
    {
        print_deserialize_typedef(&self.interface().typedefs, id)
    }

    fn print_deserialize_alias(&self, ident: &str, ty: &Type) -> (out: String)
        requires
            ty.resolved(self.subject().typedefs.len() as nat),
        ensures
            out@ == alias_reader(self.subject().typedefs@, ident@, *ty),
    {
        print_deserialize_alias(&self.interface().typedefs, ident, ty)
    }

    fn print_deserialize_record(&self, ident: &str, fields: &[RecordField]) -> (out: String)
        requires
            forall|i: int|
                0 <= i < fields.len() ==> (#[trigger] fields[i]).ty.resolved(
                    self.subject().typedefs.len() as nat,
                ),
        ensures
            out@ == record_reader(self.subject().typedefs@, ident@, fields@),
    {
        print_deserialize_record(&self.interface().typedefs, ident, fields)
    }

    fn print_deserialize_flags(&self, ident: &str, fields: &[FlagsField]) -> (out: String)
        requires
            fields.len() <= MAX_FLAGS,
        ensures
            out@ == flags_reader(ident@, fields.len() as nat),
    {
        print_deserialize_flags(ident, fields)
    }

    fn print_deserialize_variant(&self, ident: &str, cases: &[VariantCase]) -> (out: String)
        requires
            forall|i: int|
                0 <= i < cases.len() ==> ((#[trigger] cases[i]).ty matches Some(ty)
                    ==> ty.resolved(self.subject().typedefs.len() as nat)),
        ensures
            out@ == variant_reader(self.subject().typedefs@, ident@, cases@),
    {
        print_deserialize_variant(&self.interface().typedefs, ident, cases)
    }

    fn print_deserialize_enum(&self, ident: &str, cases: &[EnumCase]) -> (out: String)
        ensures
            out@ == enum_reader(ident@, cases@),
    {
        print_deserialize_enum(ident, cases)
    }

    fn print_deserialize_union(&self, ident: &str, cases: &[UnionCase]) -> (out: String)
        requires
            forall|i: int|
                0 <= i < cases.len() ==> (#[trigger] cases[i]).ty.resolved(
                    self.subject().typedefs.len() as nat,
                ),
        ensures
            out@ == union_reader(self.subject().typedefs@, ident@, cases@),
    {
        print_deserialize_union(&self.interface().typedefs, ident, cases)
    }

    fn print_serialize_ty(&self, ident: &str, ty: &Type) -> (out: String)
        requires
            ty.resolved(self.subject().typedefs.len() as nat),
        ensures
            out@ == writer(self.subject().typedefs@, ident@, *ty),
    {
        print_serialize_ty(&self.interface().typedefs, ident, ty)
    }

    fn print_serialize_typedef(&self, id: TypeDefId) -> (out: String)
        requires
            id < self.subject().typedefs.len(),
        ensures
            out@ == typedef_writer(self.subject().typedefs@, id as int),
    {
        print_serialize_typedef(&self.interface().typedefs, id)
    }

    fn print_serialize_alias(&self, ident: &str, ty: &Type) -> (out: String)
        requires
            ty.resolved(self.subject().typedefs.len() as nat),
        ensures
            out@ == alias_writer(self.subject().typedefs@, ident@, *ty),
    {
        print_serialize_alias(&self.interface().typedefs, ident, ty)
    }

    fn print_serialize_record(&self, ident: &str, fields: &[RecordField]) -> (out: String)
        requires
            forall|i: int|
                0 <= i < fields.len() ==> (#[trigger] fields[i]).ty.resolved(
                    self.subject().typedefs.len() as nat,
                ),
        ensures
            out@ == record_writer(self.subject().typedefs@, ident@, fields@),
    {
        print_serialize_record(&self.interface().typedefs, ident, fields)
    }

    fn print_serialize_flags(&self, ident: &str, fields: &[FlagsField]) -> (out: String)
        requires
            fields.len() <= MAX_FLAGS,
        ensures
            out@ == flags_writer(ident@, fields.len() as nat),
    {
        print_serialize_flags(ident, fields)
    }

    fn print_serialize_variant(&self, ident: &str, cases: &[VariantCase]) -> (out: String)
        requires
            forall|i: int|
                0 <= i < cases.len() ==> ((#[trigger] cases[i]).ty matches Some(ty)
                    ==> ty.resolved(self.subject().typedefs.len() as nat)),
        ensures
            out@ == variant_writer(self.subject().typedefs@, ident@, cases@),
    {
        print_serialize_variant(&self.interface().typedefs, ident, cases)
    }

    fn print_serialize_enum(&self, ident: &str, cases: &[EnumCase]) -> (out: String)
        ensures
            out@ == enum_writer(ident@, cases@),
    {
        print_serialize_enum(ident, cases)
    }

    fn print_serialize_union(&self, ident: &str, cases: &[UnionCase]) -> (out: String)
        requires
            forall|i: int|
                0 <= i < cases.len() ==> (#[trigger] cases[i]).ty.resolved(
                    self.subject().typedefs.len() as nat,
                ),
        ensures
            out@ == union_writer(self.subject().typedefs@, ident@, cases@),
    {
        print_serialize_union(&self.interface().typedefs, ident, cases)
    }
}

/// The plain generator: a resolved interface with what is known of the use
/// of its types.
pub struct JavaScript {
    interface: Interface,
    infos: TypeInfos,
}

impl JavaScript {
    #[verifier::type_invariant]
    spec fn sound(self) -> bool {
        &&& self.interface.resolved()
        &&& self.infos@ == usage(self.interface.typedefs@, self.interface.functions@)
    }

    /// A generator for the interface; `None` where the interface mentions a
    /// type definition that it does not hold, or holds a flags declaration
    /// that no integer can back.
    pub fn new(interface: Interface) -> (generator: Option<JavaScript>)
        ensures
            generator is Some <==> interface.resolved(),
            generator matches Some(g) ==> g.subject() == interface,
    {
        if interface.is_resolved() {
            let infos = TypeInfos::collect_from_functions(
                &interface.typedefs,
                interface.functions.as_slice(),
            );
            Some(JavaScript { interface, infos })
        } else {
            None
        }
    }
}

impl JavaScriptGenerator for JavaScript {
    closed spec fn subject(&self) -> Interface {
        self.interface
    }

    fn interface(&self) -> (interface: &Interface) {
        proof {
            use_type_invariant(self);
        }
        &self.interface
    }

    fn infos(&self) -> (infos: &TypeInfos) {
        proof {
            use_type_invariant(self);
        }
        &self.infos
    }
}

} // verus!
