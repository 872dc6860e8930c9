//! The Markdown description of an interface: a heading, the documentation,
//! the type definitions and the functions, each in the order of declaration.

use crate::ast::{
    arena_resolved, Function, FunctionResult, Interface, NamedTypeList, RecordField, Type, TypeDef,
    TypeDefArena, TypeDefId, TypeDefKind, UnionCase, VariantCase,
};
use crate::case::{kebab_case, snake_case, to_kebab_case, to_snake_case};
use crate::docs::{docs_text, print_docs};
use crate::text::{
    cat2, cat3, cat5, cat7, concat, concat_strings, join, join_strings, views,
};
use vstd::prelude::*;

verus! {

/// The name of a primitive type in the interface language.
pub open spec fn primitive_name(ty: Type) -> Option<Seq<char>> {
    match ty {
        Type::Bool => Some("bool"@),
        Type::U8 => Some("u8"@),
        Type::U16 => Some("u16"@),
        Type::U32 => Some("u32"@),
        Type::U64 => Some("u64"@),
        Type::U128 => Some("u128"@),
        Type::S8 => Some("s8"@),
        Type::S16 => Some("s16"@),
        Type::S32 => Some("s32"@),
        Type::S64 => Some("s64"@),
        Type::S128 => Some("s128"@),
        Type::Float32 => Some("float32"@),
        Type::Float64 => Some("float64"@),
        Type::Char => Some("char"@),
        Type::String => Some("string"@),
        _ => None,
    }
}

/// A link to the section of a type definition: its name, and as the anchor
/// its name in snake_case.
pub open spec fn link(ident: Seq<char>, anchor: Seq<char>) -> Seq<char> {
    "["@ + ident + "](#"@ + anchor + ")"@
}

/// The type as it is written in the interface language, with a link for
/// every type definition.
pub open spec fn ty_text(typedefs: Seq<TypeDef>, ty: Type) -> Seq<char>
    decreases ty,
{
    match ty {
        Type::List(inner) => "list<"@ + ty_text(typedefs, *inner) + ">"@,
        Type::Tuple(tys) => "tuple<"@ + join(tys_text(typedefs, tys), ", "@) + ">"@,
        Type::Option(inner) => "option<"@ + ty_text(typedefs, *inner) + ">"@,
        Type::Result { ok, err } => "result<"@ + (match ok {
            Some(t) => ty_text(typedefs, *t),
            None => "_"@,
        }) + ", "@ + (match err {
            Some(t) => ty_text(typedefs, *t),
            None => "_"@,
        }) + ">"@,
        Type::Id(id) => link(typedefs[id as int].ident@, snake_case(typedefs[id as int].ident@)),
        _ => primitive_name(ty)->0,
    }
}

/// The types of a tuple as they are written.
pub open spec fn tys_text(typedefs: Seq<TypeDef>, tys: Vec<Type>) -> Seq<Seq<char>>
    decreases tys,
{
    Seq::new(
        tys.len() as nat,
        |i: int|
            if 0 <= i < tys.len() {
                ty_text(typedefs, tys[i])
            } else {
                Seq::empty()
            },
    )
}

/// Names with their types, as in a signature.
pub open spec fn named_types_text(typedefs: Seq<TypeDef>, types: Seq<(String, Type)>) -> Seq<char> {
    join(Seq::new(types.len(), |i: int| types[i].0@ + ": "@ + ty_text(typedefs, types[i].1)), ", "@)
}

/// The first type that a function hands back is the empty tuple.
pub open spec fn hands_back_unit(result: FunctionResult) -> bool {
    result.spec_len() > 0 && (result.spec_ty(0) matches Type::Tuple(tys) && tys.len() == 0)
}

/// What a function hands back, as in a signature; nothing for the empty
/// tuple.
pub open spec fn result_text(typedefs: Seq<TypeDef>, result: FunctionResult) -> Seq<char> {
    if hands_back_unit(result) {
        Seq::empty()
    } else {
        match result {
            FunctionResult::Anon(ty) => " -> "@ + ty_text(typedefs, ty),
            FunctionResult::Named(types) => " -> ("@ + named_types_text(typedefs, types@) + ")"@,
        }
    }
}

/// The signature of a function behind a heading that begins with `head`,
/// with `open` before the signature.
pub open spec fn signature_text(
    typedefs: Seq<TypeDef>,
    head: Seq<char>,
    open: Seq<char>,
    function: Function,
) -> Seq<char> {
    head + function.id@ + open + function.id@ + " ("@ + named_types_text(
        typedefs,
        function.params@,
    ) + ")"@ + (match function.result {
        Some(result) => result_text(typedefs, result),
        None => Seq::empty(),
    }) + "`\n\n"@ + function.docs@
}

/// The section of a function of the interface.
pub open spec fn function_text(typedefs: Seq<TypeDef>, function: Function) -> Seq<char> {
    signature_text(typedefs, "### Function "@, "\n\n` func "@, function)
}

/// The section of a method of a resource.
pub open spec fn method_text(typedefs: Seq<TypeDef>, function: Function) -> Seq<char> {
    signature_text(typedefs, "### Method "@, "\n\n`func "@, function)
}

/// A section about a type definition: the heading with the kind and the
/// name, the documentation, and under a heading of their own the members.
pub open spec fn section(
    kind: Seq<char>,
    ident: Seq<char>,
    docs: Seq<char>,
    members: Seq<char>,
    list: Seq<char>,
) -> Seq<char> {
    "## "@ + kind + " "@ + ident + "\n\n"@ + docs + "\n\n### "@ + members + "\n\n"@ + list
}

/// The entry of a field of a record: its name and its type.
pub open spec fn record_field_text(typedefs: Seq<TypeDef>, field: RecordField) -> Seq<char> {
    "#### "@ + field.id@ + ": `"@ + ty_text(typedefs, field.ty) + "`\n"@ + field.docs@ + "\n"@
}

/// A member that has a name and documentation only.
pub open spec fn plain_member_text(id: Seq<char>, docs: Seq<char>) -> Seq<char> {
    "#### "@ + id + "\n"@ + docs + "\n"@
}

/// The entry of a case of a variant: its name, and its type where it has
/// one.
pub open spec fn variant_case_text(typedefs: Seq<TypeDef>, case: VariantCase) -> Seq<char> {
    "#### "@ + case.id@ + (match case.ty {
        Some(ty) => ": `"@ + ty_text(typedefs, ty) + "`"@,
        None => Seq::empty(),
    }) + "\n"@ + case.docs@ + "\n"@
}

/// The entry of a case of a union: its type.
pub open spec fn union_case_text(typedefs: Seq<TypeDef>, case: UnionCase) -> Seq<char> {
    "#### `"@ + ty_text(typedefs, case.ty) + "`\n"@ + case.docs@ + "\n"@
}

/// The section about a type definition.
pub open spec fn typedef_text(typedefs: Seq<TypeDef>, id: int) -> Seq<char> {
    let ident = typedefs[id].ident@;
    let docs = docs_text(typedefs[id].docs@);
    match typedefs[id].kind {
        TypeDefKind::Alias(ty) => "## Alias "@ + ident + "\n\n`"@ + ty_text(typedefs, ty) + "`\n\n"@
            + docs,
        TypeDefKind::Record(fields) => section(
            "Struct"@,
            ident,
            docs,
            "Fields"@,
            concat(Seq::new(fields.len() as nat, |i: int| record_field_text(typedefs, fields[i]))),
        ),
        TypeDefKind::Flags(fields) => section(
            "Flags"@,
            ident,
            docs,
            "Fields"@,
            concat(
                Seq::new(
                    fields.len() as nat,
                    |i: int| plain_member_text(fields[i].id@, fields[i].docs@),
                ),
            ),
        ),
        TypeDefKind::Variant(cases) => section(
            "Variant"@,
            ident,
            docs,
            "Cases"@,
            concat(Seq::new(cases.len() as nat, |i: int| variant_case_text(typedefs, cases[i]))),
        ),
        TypeDefKind::Enum(cases) => section(
            "Enum"@,
            ident,
            docs,
            "Cases"@,
            concat(
                Seq::new(
                    cases.len() as nat,
                    |i: int| plain_member_text(cases[i].id@, cases[i].docs@),
                ),
            ),
        ),
        TypeDefKind::Union(cases) => section(
            "Union"@,
            ident,
            docs,
            "Cases"@,
            concat(Seq::new(cases.len() as nat, |i: int| union_case_text(typedefs, cases[i]))),
        ),
        TypeDefKind::Resource(functions) => section(
            "Resource"@,
            ident,
            docs,
            "Methods"@,
            concat(Seq::new(functions.len() as nat, |i: int| method_text(typedefs, functions[i]))),
        ),
    }
}

/// The whole description of an interface.
pub open spec fn interface_text(interface: Interface) -> Seq<char> {
    "# "@ + interface.ident@ + "\n\n"@ + docs_text(interface.docs@) + "\n\n## Type definitions\n\n"@
        + join(
        Seq::new(interface.typedefs.len() as nat, |i: int| typedef_text(interface.typedefs@, i)),
        "\n"@,
    ) + "\n\n## Functions\n\n"@ + join(
        Seq::new(
            interface.functions.len() as nat,
            |i: int| function_text(interface.typedefs@, interface.functions[i]),
        ),
        "\n"@,
    )
}

/// The name of the file for an interface: its name in kebab-case with the
/// extension `md`; an empty name gets no extension.
pub open spec fn file_name(ident: Seq<char>) -> Seq<char> {
    if kebab_case(ident).len() == 0 {
        Seq::empty()
    } else {
        kebab_case(ident) + ".md"@
    }
}

/// The name of a type without parts, as the source text writes it.
fn primitive(ty: &Type) -> (name: Option<&'static str>)
    ensures
        name is Some == primitive_name(*ty) is Some,
        name matches Some(n) ==> n@ == primitive_name(*ty)->0,
        name is None <==> (*ty is Tuple || *ty is List || *ty is Option || *ty is Result || *ty is Id),
{
    match ty {
        Type::Bool => Some("bool"),
        Type::U8 => Some("u8"),
        Type::U16 => Some("u16"),
        Type::U32 => Some("u32"),
        Type::U64 => Some("u64"),
        Type::U128 => Some("u128"),
        Type::S8 => Some("s8"),
        Type::S16 => Some("s16"),
        Type::S32 => Some("s32"),
        Type::S64 => Some("s64"),
        Type::S128 => Some("s128"),
        Type::Float32 => Some("float32"),
        Type::Float64 => Some("float64"),
        Type::Char => Some("char"),
        Type::String => Some("string"),
        _ => None,
    }
}

/// A link to the section of a type definition.
pub fn print_link(ident: &str, anchor: &str) -> (out: String)
    ensures
        out@ == link(ident@, anchor@),
{
    cat5("[", ident, "](#", anchor, ")")
}

/// The type as it is written in the interface language.
pub fn print_ty(typedefs: &TypeDefArena, ty: &Type) -> (out: String)
    requires
        ty.resolved(typedefs.len() as nat),
    ensures
        out@ == ty_text(typedefs@, *ty),
    decreases ty,
{
    match ty {
        Type::List(inner) => cat3("list<", print_ty(typedefs, inner).as_str(), ">"),
        Type::Tuple(tys) => {
            let mut parts: Vec<String> = Vec::new();
            let mut i: usize = 0;
            while i < tys.len()
                invariant
                    i <= tys.len(),
                    *ty is Tuple,
                    ty->Tuple_0 == *tys,
                    ty.resolved(typedefs.len() as nat),
                    parts.len() == i,
                    forall|k: int| 0 <= k < i ==> (#[trigger] parts[k])@ == ty_text(typedefs@, tys[k]),
                decreases tys.len() - i,
            {
                parts.push(print_ty(typedefs, &tys[i]));
                i += 1;
            }
            assert(views(parts@) == tys_text(typedefs@, *tys));
            cat3("tuple<", join_strings(&parts, ", ").as_str(), ">")
        },
        Type::Option(inner) => cat3("option<", print_ty(typedefs, inner).as_str(), ">"),
        Type::Result { ok, err } => {
            let ok_text = match ok {
                Some(t) => print_ty(typedefs, t),
                None => String::from_str("_"),
            };
            let err_text = match err {
                Some(t) => print_ty(typedefs, t),
                None => String::from_str("_"),
            };
            cat5("result<", ok_text.as_str(), ", ", err_text.as_str(), ">")
        },
        Type::Id(id) => {
            let ident = typedefs[*id].ident.as_str();
            print_link(ident, to_snake_case(ident).as_str())
        },
        _ => String::from_str(primitive(ty).unwrap()),
    }
}

/// Names with their types, as in a signature.
pub fn print_named_types(typedefs: &TypeDefArena, types: &NamedTypeList) -> (out: String)
    requires
        crate::ast::named_types_resolved(types@, typedefs.len() as nat),
    ensures
        out@ == named_types_text(typedefs@, types@),
{
    let mut parts: Vec<String> = Vec::new();
    let mut i: usize = 0;
    while i < types.len()
        invariant
            i <= types.len(),
            crate::ast::named_types_resolved(types@, typedefs.len() as nat),
            parts.len() == i,
            forall|k: int|
                0 <= k < i ==> (#[trigger] parts[k])@ == types[k].0@ + ": "@ + ty_text(
                    typedefs@,
                    types[k].1,
                ),
        decreases types.len() - i,
    {
        assert(types[i as int].1.resolved(typedefs.len() as nat));
        parts.push(cat3(types[i].0.as_str(), ": ", print_ty(typedefs, &types[i].1).as_str()));
        i += 1;
    }
    assert(views(parts@) == Seq::new(
        types@.len(),
        |i: int| types[i].0@ + ": "@ + ty_text(typedefs@, types[i].1),
    ));
    join_strings(&parts, ", ")
}

/// What a function hands back, as in a signature.
pub fn print_result(typedefs: &TypeDefArena, result: &FunctionResult) -> (out: String)
    requires
        result.resolved(typedefs.len() as nat),
    ensures
        out@ == result_text(typedefs@, *result),
{
    if result.len() > 0 {
        match result.ty(0) {
            Type::Tuple(tys) => {
                if tys.len() == 0 {
                    return String::new();
                }
            },
            _ => {},
        }
    }
    match result {
        FunctionResult::Anon(ty) => cat2(" -> ", print_ty(typedefs, ty).as_str()),
        FunctionResult::Named(types) => cat3(
            " -> (",
            print_named_types(typedefs, types).as_str(),
            ")",
        ),
    }
}

/// Writes the heading and the signature of a function or a method.
fn print_signature(typedefs: &TypeDefArena, head: &str, open: &str, function: &Function) -> (out:
    String)
    requires
        function.resolved(typedefs.len() as nat),
    ensures
        out@ == signature_text(typedefs@, head@, open@, *function),
{
    let result = match &function.result {
        Some(result) => print_result(typedefs, result),
        None => String::new(),
    };
    let mut out = cat5(
        head,
        function.id.as_str(),
        open,
        function.id.as_str(),
        " (",
    );
    out.append(print_named_types(typedefs, &function.params).as_str());
    out.append(")");
    out.append(result.as_str());
    out.append("`\n\n");
    out.append(function.docs.as_str());
    out
}

/// The section about a function of the interface.
pub fn print_function(typedefs: &TypeDefArena, function: &Function) -> (out: String)
    requires
        function.resolved(typedefs.len() as nat),
    ensures
        out@ == function_text(typedefs@, *function),
{
    print_signature(typedefs, "### Function ", "\n\n` func ", function)
}

/// A section about a type definition.
pub fn print_section(kind: &str, ident: &str, docs: &str, members: &str, list: &str) -> (out: String)
    ensures
        out@ == section(kind@, ident@, docs@, members@, list@),
{
    let mut out = cat7("## ", kind, " ", ident, "\n\n", docs, "\n\n### ");
    out.append(members);
    out.append("\n\n");
    out.append(list);
    out
}

/// A member that has a name and documentation only.
pub fn print_plain_member(id: &str, docs: &str) -> (out: String)
    ensures
        out@ == plain_member_text(id@, docs@),
{
    cat5("#### ", id, "\n", docs, "\n")
}

/// The section about the type definition `id`.
#[verifier::loop_isolation(false)]
pub fn print_typedef(typedefs: &TypeDefArena, id: TypeDefId) -> (out: String)
    requires
        arena_resolved(typedefs@),
        id < typedefs.len(),
    ensures
        out@ == typedef_text(typedefs@, id as int),
{
    let typedef = &typedefs[id];
    assert(typedef.kind.resolved(typedefs.len() as nat));
    let ident = typedef.ident.as_str();
    let docs = print_docs(typedef.docs.as_str());
    match &typedef.kind {
        TypeDefKind::Alias(ty) => cat5(
            "## Alias ",
            ident,
            "\n\n`",
            print_ty(typedefs, ty).as_str(),
            "`\n\n",
        ).concat(docs.as_str()),
        TypeDefKind::Record(fields) => {
            let mut parts: Vec<String> = Vec::new();
            let mut i: usize = 0;
            while i < fields.len()
                invariant
                    i <= fields.len(),
                    parts.len() == i,
                    forall|k: int|
                        0 <= k < i ==> (#[trigger] parts[k])@ == record_field_text(typedefs@, fields[k]),
                decreases fields.len() - i,
            {
                parts.push(
                    cat7(
                        "#### ",
                        fields[i].id.as_str(),
                        ": `",
                        print_ty(typedefs, &fields[i].ty).as_str(),
                        "`\n",
                        fields[i].docs.as_str(),
                        "\n",
                    ),
                );
                i += 1;
            }
            assert(views(parts@) == Seq::new(
                fields.len() as nat,
                |i: int| record_field_text(typedefs@, fields[i]),
            ));
            print_section("Struct", ident, docs.as_str(), "Fields", concat_strings(&parts).as_str())
        },
        TypeDefKind::Flags(fields) => {
            let mut parts: Vec<String> = Vec::new();
            let mut i: usize = 0;
            while i < fields.len()
                invariant
                    i <= fields.len(),
                    parts.len() == i,
                    forall|k: int|
                        0 <= k < i ==> (#[trigger] parts[k])@ == plain_member_text(
                            fields[k].id@,
                            fields[k].docs@,
                        ),
                decreases fields.len() - i,
            {
                parts.push(print_plain_member(fields[i].id.as_str(), fields[i].docs.as_str()));
                i += 1;
            }
            assert(views(parts@) == Seq::new(
                fields.len() as nat,
                |i: int| plain_member_text(fields[i].id@, fields[i].docs@),
            ));
            print_section("Flags", ident, docs.as_str(), "Fields", concat_strings(&parts).as_str())
        },
        TypeDefKind::Variant(cases) => {
            let mut parts: Vec<String> = Vec::new();
            let mut i: usize = 0;
            while i < cases.len()
                invariant
                    i <= cases.len(),
                    parts.len() == i,
                    forall|k: int|
                        0 <= k < i ==> (#[trigger] parts[k])@ == variant_case_text(typedefs@, cases[k]),
                decreases cases.len() - i,
            {
                let ty_part = match &cases[i].ty {
                    Some(ty) => cat3(": `", print_ty(typedefs, ty).as_str(), "`"),
                    None => String::new(),
                };
                parts.push(
                    cat3("#### ", cases[i].id.as_str(), ty_part.as_str()).concat("\n").concat(
                        cases[i].docs.as_str(),
                    ).concat("\n"),
                );
                i += 1;
            }
            assert(views(parts@) == Seq::new(
                cases.len() as nat,
                |i: int| variant_case_text(typedefs@, cases[i]),
            ));
            print_section("Variant", ident, docs.as_str(), "Cases", concat_strings(&parts).as_str())
        },
        TypeDefKind::Enum(cases) => {
            let mut parts: Vec<String> = Vec::new();
            let mut i: usize = 0;
            while i < cases.len()
                invariant
                    i <= cases.len(),
                    parts.len() == i,
                    forall|k: int|
                        0 <= k < i ==> (#[trigger] parts[k])@ == plain_member_text(
                            cases[k].id@,
                            cases[k].docs@,
                        ),
                decreases cases.len() - i,
            {
                parts.push(print_plain_member(cases[i].id.as_str(), cases[i].docs.as_str()));
                i += 1;
            }
            assert(views(parts@) == Seq::new(
                cases.len() as nat,
                |i: int| plain_member_text(cases[i].id@, cases[i].docs@),
            ));
            print_section("Enum", ident, docs.as_str(), "Cases", concat_strings(&parts).as_str())
        },
        TypeDefKind::Union(cases) => {
            let mut parts: Vec<String> = Vec::new();
            let mut i: usize = 0;
            while i < cases.len()
                invariant
                    i <= cases.len(),
                    parts.len() == i,
                    forall|k: int|
                        0 <= k < i ==> (#[trigger] parts[k])@ == union_case_text(typedefs@, cases[k]),
                decreases cases.len() - i,
            {
                parts.push(
                    cat5(
                        "#### `",
                        print_ty(typedefs, &cases[i].ty).as_str(),
                        "`\n",
                        cases[i].docs.as_str(),
                        "\n",
                    ),
                );
                i += 1;
            }
            assert(views(parts@) == Seq::new(
                cases.len() as nat,
                |i: int| union_case_text(typedefs@, cases[i]),
            ));
            print_section("Union", ident, docs.as_str(), "Cases", concat_strings(&parts).as_str())
        },
        TypeDefKind::Resource(functions) => {
            let mut parts: Vec<String> = Vec::new();
            let mut i: usize = 0;
            while i < functions.len()
                invariant
                    i <= functions.len(),
                    parts.len() == i,
                    forall|k: int|
                        0 <= k < i ==> (#[trigger] parts[k])@ == method_text(typedefs@, functions[k]),
                decreases functions.len() - i,
            {
                assert(functions[i as int].resolved(typedefs.len() as nat));
                parts.push(print_signature(typedefs, "### Method ", "\n\n`func ", &functions[i]));
                i += 1;
            }
            assert(views(parts@) == Seq::new(
                functions.len() as nat,
                |i: int| method_text(typedefs@, functions[i]),
            ));
            print_section(
                "Resource",
                ident,
                docs.as_str(),
                "Methods",
                concat_strings(&parts).as_str(),
            )
        },
    }
}

/// The options of the Markdown emitter, of which there are none.
#[derive(Default, Debug, Clone)]
pub struct Builder {}

/// The Markdown emitter for one interface.
pub struct Markdown {
    _opts: Builder,
    interface: Interface,
}

impl Builder {
    /// The emitter for the interface, which is resolved.
    pub fn build(self, interface: Interface) -> (markdown: Markdown)
        requires
            interface.resolved(),
        ensures
            markdown.subject() == interface,
    {
        Markdown { _opts: self, interface }
    }
}

impl Markdown {
    #[verifier::type_invariant]
    spec fn sound(self) -> bool {
        self.interface.resolved()
    }

    /// The interface that is described.
    pub closed spec fn subject(self) -> Interface {
        self.interface
    }

    pub fn print_ty(&self, ty: &Type) -> (out: String)
        requires
            ty.resolved(self.subject().typedefs.len() as nat),
        ensures
            out@ == ty_text(self.subject().typedefs@, *ty),
    {
        print_ty(&self.interface.typedefs, ty)
    }

    pub fn print_typedef(&self, id: TypeDefId) -> (out: String)
        requires
            id < self.subject().typedefs.len(),
        ensures
            out@ == typedef_text(self.subject().typedefs@, id as int),
    {
        proof {
            use_type_invariant(self);
        }
        print_typedef(&self.interface.typedefs, id)
    }

    pub fn print_function(&self, function: &Function) -> (out: String)
        requires
            function.resolved(self.subject().typedefs.len() as nat),
        ensures
            out@ == function_text(self.subject().typedefs@, *function),
    {
        print_function(&self.interface.typedefs, function)
    }

    pub fn print_named_types(&self, types: &NamedTypeList) -> (out: String)
        requires
            crate::ast::named_types_resolved(types@, self.subject().typedefs.len() as nat),
        ensures
            out@ == named_types_text(self.subject().typedefs@, types@),
    {
        print_named_types(&self.interface.typedefs, types)
    }

    pub fn print_result(&self, result: &FunctionResult) -> (out: String)
        requires
            result.resolved(self.subject().typedefs.len() as nat),
        ensures
            out@ == result_text(self.subject().typedefs@, *result),
    {
        print_result(&self.interface.typedefs, result)
    }

    /// The name of the file and what it holds: the description of the
    /// interface, with the type definitions and the functions in the order
    /// of their declaration.
    pub fn to_file(&mut self) -> (file: (String, String))
        ensures
            *final(self) == *old(self),
            file.0@ == file_name(old(self).subject().ident@),
            file.1@ == interface_text(old(self).subject()),
    {
        proof {
            use_type_invariant(&*self);
        }
        let interface = &self.interface;
        let docs = print_docs(interface.docs.as_str());
        let mut sections: Vec<String> = Vec::new();
        let mut i: usize = 0;
        while i < interface.typedefs.len()
            invariant
                i <= interface.typedefs.len(),
                interface.resolved(),
                sections.len() == i,
                forall|k: int|
                    0 <= k < i ==> (#[trigger] sections[k])@ == typedef_text(interface.typedefs@, k),
            decreases interface.typedefs.len() - i,
        {
            sections.push(print_typedef(&interface.typedefs, i));
            i += 1;
        }
        assert(views(sections@) == Seq::new(
            interface.typedefs.len() as nat,
            |i: int| typedef_text(interface.typedefs@, i),
        ));
        let mut functions: Vec<String> = Vec::new();
        let mut i: usize = 0;
        while i < interface.functions.len()
            invariant
                i <= interface.functions.len(),
                interface.resolved(),
                functions.len() == i,
                forall|k: int|
                    0 <= k < i ==> (#[trigger] functions[k])@ == function_text(
                        interface.typedefs@,
                        interface.functions[k],
                    ),
            decreases interface.functions.len() - i,
        {
            assert(interface.functions[i as int].resolved(interface.typedefs.len() as nat));
            functions.push(print_function(&interface.typedefs, &interface.functions[i]));
            i += 1;
        }
        assert(views(functions@) == Seq::new(
            interface.functions.len() as nat,
            |i: int| function_text(interface.typedefs@, interface.functions[i]),
        ));
        let mut contents = cat5(
            "# ",
            interface.ident.as_str(),
            "\n\n",
            docs.as_str(),
            "\n\n## Type definitions\n\n",
        );
        contents.append(join_strings(&sections, "\n").as_str());
        contents.append("\n\n## Functions\n\n");
        contents.append(join_strings(&functions, "\n").as_str());
        let stem = to_kebab_case(interface.ident.as_str());
        let name = if stem.as_str().unicode_len() == 0 {
            String::new()
        } else {
            cat2(stem.as_str(), ".md")
        };
        (name, contents)
    }
}

} // verus!
