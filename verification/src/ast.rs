//! The interface AST: an interface is a named bundle of type definitions,
//! held in a dense arena, and of functions, both in declaration order.

use vstd::prelude::*;

verus! {

/// Index of a type definition in the arena of its interface.
pub type TypeDefId = usize;

/// The arena of type definitions; a `TypeDefId` indexes it.
pub type TypeDefArena = Vec<TypeDef>;

/// Names with their types, in declaration order: parameters or named results.
pub type NamedTypeList = Vec<(String, Type)>;

/// The largest number of fields a flags declaration may have.
pub const MAX_FLAGS: usize = 128;

/// The structural universe of types.
#[derive(Debug, PartialEq, Eq)]
pub enum Type {
    Bool,
    U8,
    U16,
    U32,
    U64,
    U128,
    S8,
    S16,
    S32,
    S64,
    S128,
    Float32,
    Float64,
    Char,
    String,
    List(Box<Type>),
    Tuple(Vec<Type>),
    Option(Box<Type>),
    Result { ok: Option<Box<Type>>, err: Option<Box<Type>> },
    Id(TypeDefId),
}

/// The unsigned integer that backs a flags declaration.
#[derive(Clone, Copy, Debug, PartialEq, Eq, Structural)]
pub enum Int {
    U8,
    U16,
    U32,
    U64,
    U128,
}

/// A field of a record.
#[derive(Debug, PartialEq, Eq)]
pub struct RecordField {
    pub id: String,
    pub ty: Type,
    pub docs: String,
}

/// A field of a flags declaration; its bit is its place in the declaration.
#[derive(Debug, PartialEq, Eq)]
pub struct FlagsField {
    pub id: String,
    pub docs: String,
}

/// A case of a variant, with a payload or without; its tag is its place in
/// the declaration.
#[derive(Debug, PartialEq, Eq)]
pub struct VariantCase {
    pub id: String,
    pub ty: Option<Type>,
    pub docs: String,
}

/// A case of an enum; its tag is its place in the declaration.
#[derive(Debug, PartialEq, Eq)]
pub struct EnumCase {
    pub id: String,
    pub docs: String,
}

/// A case of a union, which has a type and no name.
#[derive(Debug, PartialEq, Eq)]
pub struct UnionCase {
    pub ty: Type,
    pub docs: String,
}

/// What a function returns: one value, or several under names.
#[derive(Debug, PartialEq, Eq)]
pub enum FunctionResult {
    Anon(Type),
    Named(NamedTypeList),
}

/// A function of an interface, or a method of a resource.
#[derive(Debug, PartialEq, Eq)]
pub struct Function {
    pub id: String,
    pub docs: String,
    pub params: NamedTypeList,
    pub result: Option<FunctionResult>,
}

/// What a type definition declares.
#[derive(Debug, PartialEq, Eq)]
pub enum TypeDefKind {
    Alias(Type),
    Record(Vec<RecordField>),
    Flags(Vec<FlagsField>),
    Variant(Vec<VariantCase>),
    Enum(Vec<EnumCase>),
    Union(Vec<UnionCase>),
    Resource(Vec<Function>),
}

/// A named type declaration.
#[derive(Debug, PartialEq, Eq)]
pub struct TypeDef {
    pub ident: String,
    pub docs: String,
    pub kind: TypeDefKind,
}

/// A named bundle of type definitions and functions, both in the order of
/// their declaration.
#[derive(Debug, PartialEq, Eq)]
pub struct Interface {
    pub ident: String,
    pub docs: String,
    pub typedefs: TypeDefArena,
    pub functions: Vec<Function>,
}

impl Type {
    /// Every `Id` inside this type is an index below `n`.
    pub open spec fn resolved(self, n: nat) -> bool
        decreases self,
    {
        match self {
            Type::List(inner) => inner.resolved(n),
            Type::Option(inner) => inner.resolved(n),
            Type::Tuple(tys) => forall|i: int| 0 <= i < tys.len() ==> (#[trigger] tys[i]).resolved(n),
            Type::Result { ok, err } => {
                &&& ok matches Some(t) ==> t.resolved(n)
                &&& err matches Some(t) ==> t.resolved(n)
            },
            Type::Id(id) => id < n,
            _ => true,
        }
    }

    /// Tells whether every `Id` inside this type is an index below `n`.
    pub fn is_resolved(&self, n: usize) -> (b: bool)
        ensures
            b == self.resolved(n as nat),
        decreases self,
    {
        match self {
            Type::List(inner) => inner.is_resolved(n),
            Type::Option(inner) => inner.is_resolved(n),
            Type::Tuple(tys) => {
                let mut i: usize = 0;
                while i < tys.len()
                    invariant
                        i <= tys.len(),
                        self->Tuple_0 == *tys,
                        *self is Tuple,
                        forall|j: int| 0 <= j < i ==> (#[trigger] tys[j]).resolved(n as nat),
                    decreases tys.len() - i,
                {
                    if !tys[i].is_resolved(n) {
                        return false;
                    }
                    i += 1;
                }
                true
            },
            Type::Result { ok, err } => {
                let ok_fine = match ok {
                    Some(t) => t.is_resolved(n),
                    None => true,
                };
                let err_fine = match err {
                    Some(t) => t.is_resolved(n),
                    None => true,
                };
                ok_fine && err_fine
            },
            Type::Id(id) => *id < n,
            _ => true,
        }
    }
}

/// Every type of the list is resolved below `n`.
pub open spec fn named_types_resolved(types: Seq<(String, Type)>, n: nat) -> bool {
    forall|i: int| 0 <= i < types.len() ==> (#[trigger] types[i]).1.resolved(n)
}

/// Tells whether every type of the list is resolved below `n`.
pub fn check_named_types(types: &NamedTypeList, n: usize) -> (b: bool)
    ensures
        b == named_types_resolved(types@, n as nat),
{
    let mut i: usize = 0;
    while i < types.len()
        invariant
            i <= types.len(),
            forall|j: int| 0 <= j < i ==> (#[trigger] types[j]).1.resolved(n as nat),
        decreases types.len() - i,
    {
        if !types[i].1.is_resolved(n) {
            return false;
        }
        i += 1;
    }
    true
}

impl FunctionResult {
    /// Every type handed back is resolved below `n`.
    pub open spec fn resolved(self, n: nat) -> bool {
        match self {
            FunctionResult::Anon(ty) => ty.resolved(n),
            FunctionResult::Named(types) => named_types_resolved(types@, n),
        }
    }

    /// How many values the function hands back.
    pub open spec fn spec_len(self) -> nat {
        match self {
            FunctionResult::Anon(_) => 1,
            FunctionResult::Named(types) => types.len() as nat,
        }
    }

    /// The `i`-th type handed back.
    pub open spec fn spec_ty(self, i: int) -> Type {
        match self {
            FunctionResult::Anon(ty) => ty,
            FunctionResult::Named(types) => types[i].1,
        }
    }

    /// Tells whether every type handed back is resolved below `n`.
    pub fn is_resolved(&self, n: usize) -> (b: bool)
        ensures
            b == self.resolved(n as nat),
    {
        match self {
            FunctionResult::Anon(ty) => ty.is_resolved(n),
            FunctionResult::Named(types) => check_named_types(types, n),
        }
    }

    /// How many values the function hands back.
    pub fn len(&self) -> (n: usize)
        ensures
            n == self.spec_len(),
    {
        match self {
            FunctionResult::Anon(_) => 1,
            FunctionResult::Named(types) => types.len(),
        }
    }

    /// The `i`-th type handed back.
    pub fn ty(&self, i: usize) -> (t: &Type)
        requires
            i < self.spec_len(),
        ensures
            *t == self.spec_ty(i as int),
    {
        match self {
            FunctionResult::Anon(ty) => ty,
            FunctionResult::Named(types) => &types[i].1,
        }
    }
}

impl Function {
    /// Every type of the signature is resolved below `n`.
    pub open spec fn resolved(self, n: nat) -> bool {
        &&& named_types_resolved(self.params@, n)
        &&& self.result matches Some(r) ==> r.resolved(n)
    }

    /// Tells whether every type of the signature is resolved below `n`.
    pub fn is_resolved(&self, n: usize) -> (b: bool)
        ensures
            b == self.resolved(n as nat),
    {
        let params_fine = check_named_types(&self.params, n);
        let result_fine = match &self.result {
            Some(r) => r.is_resolved(n),
            None => true,
        };
        params_fine && result_fine
    }
}

/// Every function of the list is resolved below `n`.
pub open spec fn functions_resolved(functions: Seq<Function>, n: nat) -> bool {
    forall|i: int| 0 <= i < functions.len() ==> (#[trigger] functions[i]).resolved(n)
}

/// Tells whether every function of the list is resolved below `n`.
pub fn check_functions(functions: &[Function], n: usize) -> (b: bool)
    ensures
        b == functions_resolved(functions@, n as nat),
{
    let mut i: usize = 0;
    while i < functions.len()
        invariant
            i <= functions.len(),
            forall|j: int| 0 <= j < i ==> (#[trigger] functions[j]).resolved(n as nat),
        decreases functions.len() - i,
    {
        if !functions[i].is_resolved(n) {
            return false;
        }
        i += 1;
    }
    true
}

impl TypeDefKind {
    /// Every type mentioned in the body is resolved below `n`, and a flags
    /// declaration has no more fields than an integer can back.
    pub open spec fn resolved(self, n: nat) -> bool {
        match self {
            TypeDefKind::Alias(ty) => ty.resolved(n),
            TypeDefKind::Record(fields) => forall|i: int|
                0 <= i < fields.len() ==> (#[trigger] fields[i]).ty.resolved(n),
            TypeDefKind::Flags(fields) => fields.len() <= MAX_FLAGS,
            TypeDefKind::Variant(cases) => forall|i: int|
                0 <= i < cases.len() ==> ((#[trigger] cases[i]).ty matches Some(ty) ==> ty.resolved(
                    n,
                )),
            TypeDefKind::Enum(_) => true,
            TypeDefKind::Union(cases) => forall|i: int|
                0 <= i < cases.len() ==> (#[trigger] cases[i]).ty.resolved(n),
            TypeDefKind::Resource(functions) => functions_resolved(functions@, n),
        }
    }

    /// Tells whether the body is resolved below `n`.
    #[verifier::loop_isolation(false)]
    pub fn is_resolved(&self, n: usize) -> (b: bool)
        ensures
            b == self.resolved(n as nat),
    {
        match self {
            TypeDefKind::Alias(ty) => ty.is_resolved(n),
            TypeDefKind::Record(fields) => {
                let mut i: usize = 0;
                while i < fields.len()
                    invariant
                        i <= fields.len(),
                        forall|j: int| 0 <= j < i ==> (#[trigger] fields[j]).ty.resolved(n as nat),
                    decreases fields.len() - i,
                {
                    if !fields[i].ty.is_resolved(n) {
                        return false;
                    }
                    i += 1;
                }
                true
            },
            TypeDefKind::Flags(fields) => fields.len() <= MAX_FLAGS,
            TypeDefKind::Variant(cases) => {
                let mut i: usize = 0;
                while i < cases.len()
                    invariant
                        i <= cases.len(),
                        forall|j: int|
                            0 <= j < i ==> ((#[trigger] cases[j]).ty matches Some(ty)
                                ==> ty.resolved(n as nat)),
                    decreases cases.len() - i,
                {
                    let fine = match &cases[i].ty {
                        Some(ty) => ty.is_resolved(n),
                        None => true,
                    };
                    if !fine {
                        return false;
                    }
                    i += 1;
                }
                true
            },
            TypeDefKind::Enum(_) => true,
            TypeDefKind::Union(cases) => {
                let mut i: usize = 0;
                while i < cases.len()
                    invariant
                        i <= cases.len(),
                        forall|j: int| 0 <= j < i ==> (#[trigger] cases[j]).ty.resolved(n as nat),
                    decreases cases.len() - i,
                {
                    if !cases[i].ty.is_resolved(n) {
                        return false;
                    }
                    i += 1;
                }
                true
            },
            TypeDefKind::Resource(functions) => check_functions(functions.as_slice(), n),
        }
    }
}

/// Every identifier of a type definition that occurs in the arena points into
/// the arena, and every flags declaration fits an integer.
pub open spec fn arena_resolved(typedefs: Seq<TypeDef>) -> bool {
    forall|i: int| 0 <= i < typedefs.len() ==> (#[trigger] typedefs[i]).kind.resolved(typedefs.len())
}

/// Tells whether the arena is closed: see [`arena_resolved`].
pub fn check_arena(typedefs: &TypeDefArena) -> (b: bool)
    ensures
        b == arena_resolved(typedefs@),
{
    let n = typedefs.len();
    let mut i: usize = 0;
    while i < n
        invariant
            i <= n,
            n == typedefs.len(),
            forall|j: int| 0 <= j < i ==> (#[trigger] typedefs[j]).kind.resolved(n as nat),
        decreases n - i,
    {
        if !typedefs[i].kind.is_resolved(n) {
            return false;
        }
        i += 1;
    }
    true
}

impl Interface {
    /// The arena is closed and the functions mention only types of the arena.
    pub open spec fn resolved(self) -> bool {
        &&& arena_resolved(self.typedefs@)
        &&& functions_resolved(self.functions@, self.typedefs.len() as nat)
    }

    /// Tells whether the interface is resolved, which every emitter asks for.
    pub fn is_resolved(&self) -> (b: bool)
        ensures
            b == self.resolved(),
    {
        check_arena(&self.typedefs) && check_functions(
            self.functions.as_slice(),
            self.typedefs.len(),
        )
    }
}

} // verus!
