//! What a declaration is represented by in generated code: the integer
//! behind a set of flags, and the names of the cases of a union.

use crate::ast::{FlagsField, Int, Type, TypeDef, TypeDefArena, UnionCase, MAX_FLAGS};
use crate::case::{to_upper_camel_case, upper_camel_case};
use crate::text::{
    concat, concat_strings, decimal, lemma_decimal_injective, lemma_same_prefix, push_decimal,
    views,
};
use crate::error::Error;
use vstd::prelude::*;

verus! {

impl Int {
    /// How many bits the integer has.
    pub open spec fn bits(self) -> nat {
        match self {
            Int::U8 => 8,
            Int::U16 => 16,
            Int::U32 => 32,
            Int::U64 => 64,
            Int::U128 => 128,
        }
    }

    /// How many bits the integer has.
    pub fn width(&self) -> (w: usize)
        ensures
            w == self.bits(),
    {
        match self {
            Int::U8 => 8,
            Int::U16 => 16,
            Int::U32 => 32,
            Int::U64 => 64,
            Int::U128 => 128,
        }
    }
}

/// The integer that backs `n` flags, for `n` up to 128.
pub open spec fn flags_int(n: nat) -> Int {
    if n <= 8 {
        Int::U8
    } else if n <= 16 {
        Int::U16
    } else if n <= 32 {
        Int::U32
    } else if n <= 64 {
        Int::U64
    } else {
        Int::U128
    }
}

/// The integer that backs the flags: the narrowest that has a bit for each
/// field.
pub fn flags_repr(fields: &[FlagsField]) -> (repr: Int)
    requires
        fields.len() <= MAX_FLAGS,
    ensures
        repr == flags_int(fields.len() as nat),
        repr.bits() >= fields.len(),
        forall|other: Int| other.bits() >= fields.len() ==> repr.bits() <= other.bits(),
{
    let n = fields.len();
    if n <= 8 {
        Int::U8
    } else if n <= 16 {
        Int::U16
    } else if n <= 32 {
        Int::U32
    } else if n <= 64 {
        Int::U64
    } else {
        Int::U128
    }
}

/// The integer that backs the flags, or the error for a declaration with
/// more fields than any integer has bits.
pub fn checked_flags_repr(fields: &[FlagsField]) -> (repr: Result<Int, Error>)
    ensures
        fields.len() <= MAX_FLAGS ==> repr == Ok::<Int, Error>(flags_int(fields.len() as nat)),
        fields.len() > MAX_FLAGS ==> repr == Err::<Int, Error>(
            Error::TooManyFlags { count: fields.len() },
        ),
{
    if fields.len() <= MAX_FLAGS {
        Ok(flags_repr(fields))
    } else {
        Err(Error::TooManyFlags { count: fields.len() })
    }
}

/// The name of a type inside an identifier: the upper-camel name of a
/// primitive or of a defined type, and for a container its own name followed
/// by the names of what it holds.
pub open spec fn type_ident(typedefs: Seq<TypeDef>, ty: Type) -> Seq<char>
    decreases ty,
{
    match ty {
        Type::Bool => "Bool"@,
        Type::U8 => "U8"@,
        Type::U16 => "U16"@,
        Type::U32 => "U32"@,
        Type::U64 => "U64"@,
        Type::U128 => "U128"@,
        Type::S8 => "S8"@,
        Type::S16 => "S16"@,
        Type::S32 => "S32"@,
        Type::S64 => "S64"@,
        Type::S128 => "S128"@,
        Type::Float32 => "Float32"@,
        Type::Float64 => "Float64"@,
        Type::Char => "Char"@,
        Type::String => "String"@,
        Type::List(inner) => "List"@ + type_ident(typedefs, *inner),
        Type::Tuple(tys) => "Tuple"@ + concat(type_idents(typedefs, tys)),
        Type::Option(inner) => "Option"@ + type_ident(typedefs, *inner),
        Type::Result { ok, err } => "Result"@ + (match ok {
            Some(t) => type_ident(typedefs, *t),
            None => Seq::empty(),
        }) + (match err {
            Some(t) => type_ident(typedefs, *t),
            None => Seq::empty(),
        }),
        Type::Id(id) => upper_camel_case(typedefs[id as int].ident@),
    }
}

/// The names of the types of a tuple: see [`type_ident`].
pub open spec fn type_idents(typedefs: Seq<TypeDef>, tys: Vec<Type>) -> Seq<Seq<char>>
    decreases tys,
{
    Seq::new(
        tys.len() as nat,
        |i: int|
            if 0 <= i < tys.len() {
                type_ident(typedefs, tys[i])
            } else {
                Seq::empty()
            },
    )
}

/// The names of the types of the cases, before any is told apart.
pub open spec fn case_idents(typedefs: Seq<TypeDef>, cases: Seq<UnionCase>) -> Seq<Seq<char>> {
    Seq::new(cases.len(), |i: int| type_ident(typedefs, cases[i].ty))
}

/// Another case has the name of case `i`.
pub open spec fn collides(idents: Seq<Seq<char>>, i: int) -> bool {
    exists|j: int| 0 <= j < idents.len() && j != i && #[trigger] idents[j] == idents[i]
}

/// The name of case `i`: the name of its type, followed by the ordinal of
/// the case where another case has a type of the same name.
pub open spec fn case_name(idents: Seq<Seq<char>>, i: int) -> Seq<char> {
    if collides(idents, i) {
        idents[i] + decimal(i as nat)
    } else {
        idents[i]
    }
}

/// The names of the cases of a union, in the order of the cases.
pub open spec fn union_names(typedefs: Seq<TypeDef>, cases: Seq<UnionCase>) -> Seq<Seq<char>> {
    Seq::new(cases.len(), |i: int| case_name(case_idents(typedefs, cases), i))
}

/// The name of a type inside an identifier.
pub fn print_type_ident(typedefs: &TypeDefArena, ty: &Type) -> (out: String)
    requires
        ty.resolved(typedefs.len() as nat),
    ensures
        out@ == type_ident(typedefs@, *ty),
    decreases ty,
{
    match ty {
        Type::Bool => String::from_str("Bool"),
        Type::U8 => String::from_str("U8"),
        Type::U16 => String::from_str("U16"),
        Type::U32 => String::from_str("U32"),
        Type::U64 => String::from_str("U64"),
        Type::U128 => String::from_str("U128"),
        Type::S8 => String::from_str("S8"),
        Type::S16 => String::from_str("S16"),
        Type::S32 => String::from_str("S32"),
        Type::S64 => String::from_str("S64"),
        Type::S128 => String::from_str("S128"),
        Type::Float32 => String::from_str("Float32"),
        Type::Float64 => String::from_str("Float64"),
        Type::Char => String::from_str("Char"),
        Type::String => String::from_str("String"),
        Type::List(inner) => {
            let mut out = String::from_str("List");
            out.append(print_type_ident(typedefs, inner).as_str());
            out
        },
        Type::Tuple(tys) => {
            let mut parts: Vec<String> = Vec::new();
            let mut i: usize = 0;
            while i < tys.len()
                invariant
                    i <= tys.len(),
                    *ty is Tuple,
                    ty->Tuple_0 == *tys,
                    ty.resolved(typedefs.len() as nat),
                    parts.len() == i,
                    forall|k: int| 0 <= k < i ==> (#[trigger] parts[k])@ == type_ident(typedefs@, tys[k]),
                decreases tys.len() - i,
            {
                parts.push(print_type_ident(typedefs, &tys[i]));
                i += 1;
            }
            assert(views(parts@) == type_idents(typedefs@, *tys));
            let mut out = String::from_str("Tuple");
            out.append(concat_strings(&parts).as_str());
            out
        },
        Type::Option(inner) => {
            let mut out = String::from_str("Option");
            out.append(print_type_ident(typedefs, inner).as_str());
            out
        },
        Type::Result { ok, err } => {
            let mut out = String::from_str("Result");
            match ok {
                Some(t) => out.append(print_type_ident(typedefs, t).as_str()),
                None => {
                    assert(out@ + Seq::<char>::empty() == out@);
                },
            }
            match err {
                Some(t) => out.append(print_type_ident(typedefs, t).as_str()),
                None => {
                    assert(out@ + Seq::<char>::empty() == out@);
                },
            }
            out
        },
        Type::Id(id) => to_upper_camel_case(typedefs[*id].ident.as_str()),
    }
}

/// Tells whether another of the names is the `i`-th name.
fn name_collides(idents: &Vec<String>, i: usize) -> (b: bool)
    requires
        i < idents.len(),
    ensures
        b == collides(views(idents@), i as int),
{
    let mut j: usize = 0;
    while j < idents.len()
        invariant
            j <= idents.len(),
            i < idents.len(),
            forall|k: int| 0 <= k < j && k != i ==> (#[trigger] views(idents@)[k]) != views(idents@)[i as int],
        decreases idents.len() - j,
    {
        if j != i && idents[j] == idents[i] {
            assert(views(idents@)[j as int] == views(idents@)[i as int]);
            return true;
        }
        j += 1;
    }
    false
}

/// The names of the cases of a union, which has none of its own: each case
/// is named after its type, and where two cases have types of the same name,
/// each of them gets its ordinal behind the name.
pub fn union_case_names(typedefs: &TypeDefArena, cases: &[UnionCase]) -> (names: Vec<String>)
    requires
        forall|i: int| 0 <= i < cases.len() ==> (#[trigger] cases[i]).ty.resolved(typedefs.len() as nat),
    ensures
        views(names@) == union_names(typedefs@, cases@),
{
    let mut idents: Vec<String> = Vec::new();
    let mut i: usize = 0;
    while i < cases.len()
        invariant
            i <= cases.len(),
            forall|k: int| 0 <= k < cases.len() ==> (#[trigger] cases[k]).ty.resolved(typedefs.len() as nat),
            idents.len() == i,
            forall|k: int| 0 <= k < i ==> (#[trigger] idents[k])@ == type_ident(typedefs@, cases[k].ty),
        decreases cases.len() - i,
    {
        idents.push(print_type_ident(typedefs, &cases[i].ty));
        i += 1;
    }
    assert(views(idents@) == case_idents(typedefs@, cases@));
    let mut names: Vec<String> = Vec::new();
    let mut i: usize = 0;
    while i < cases.len()
        invariant
            i <= cases.len(),
            idents.len() == cases.len(),
            views(idents@) == case_idents(typedefs@, cases@),
            names.len() == i,
            forall|k: int| 0 <= k < i ==> (#[trigger] names[k])@ == case_name(views(idents@), k),
        decreases cases.len() - i,
    {
        let mut name = idents[i].clone();
        assert(name@ == views(idents@)[i as int]);
        if name_collides(&idents, i) {
            push_decimal(&mut name, i);
        }
        names.push(name);
        i += 1;
    }
    assert(views(names@) == union_names(typedefs@, cases@));
    names
}

/// Two cases of a union whose types have the same name are told apart by
/// their ordinals: their names differ.
pub proof fn lemma_union_names_tell_apart(
    typedefs: Seq<TypeDef>,
    cases: Seq<UnionCase>,
    i: int,
    j: int,
)
    requires
        0 <= i < cases.len(),
        0 <= j < cases.len(),
        i != j,
        type_ident(typedefs, cases[i].ty) == type_ident(typedefs, cases[j].ty),
    ensures
        union_names(typedefs, cases)[i] != union_names(typedefs, cases)[j],
{
    let idents = case_idents(typedefs, cases);
    assert(idents[j] == idents[i]);
    assert(collides(idents, i));
    assert(collides(idents, j));
    if union_names(typedefs, cases)[i] == union_names(typedefs, cases)[j] {
        lemma_same_prefix(idents[i], decimal(i as nat), decimal(j as nat));
        lemma_decimal_injective(i as nat, j as nat);
    }
}

/// A case of a union whose type no other case shares has the name of its
/// type, and there is one name for each case.
pub proof fn lemma_union_names_plain(typedefs: Seq<TypeDef>, cases: Seq<UnionCase>, i: int)
    requires
        0 <= i < cases.len(),
        forall|j: int|
            0 <= j < cases.len() && j != i ==> type_ident(typedefs, (#[trigger] cases[j]).ty)
                != type_ident(typedefs, cases[i].ty),
    ensures
        union_names(typedefs, cases).len() == cases.len(),
        union_names(typedefs, cases)[i] == type_ident(typedefs, cases[i].ty),
{
    let idents = case_idents(typedefs, cases);
    if collides(idents, i) {
        let j = choose|j: int| 0 <= j < idents.len() && j != i && #[trigger] idents[j] == idents[i];
        assert(type_ident(typedefs, cases[j].ty) == idents[j]);
    }
}

} // verus!
