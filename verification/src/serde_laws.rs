//! What holds of every set of codec helpers that the solver computes.

use crate::ast::{Function, FunctionResult, Type, TypeDef, TypeDefKind};
use crate::reach::{
    function_mentions, functions_mention, is_path, lemma_reachable_monotone, named_types_mention,
    reachable, type_mentions,
};
use crate::serde_utils::{
    capabilities, covers, function_bits, function_capabilities, function_uses, functions_bits,
    named_types_capabilities, type_capabilities, type_roots, int_bits, int_codec,
    kind_bits, kind_uses, named_types_bits, named_types_use, needed, or_all, own_codec,
    reached_bits, signature_roots, travels, type_bits, type_uses, types_bits, types_use, Codec,
    Direction, SerdeUtils, Snippet, BITS128, BITS16, BITS32, BITS64,
    BITS8, BOOL, BYTES, BYTES_ONLY, CHAR, CHAR_ONLY, DE, F32, F64, LIST, LIST_ONLY, OPTION,
    OPTION_ONLY, RESULT, RESULT_ONLY, S128, S16, S32, S64, S8, SER, SIGNED, STRING, STRING_ONLY,
    S128_ONLY, S16_ONLY, S32_ONLY, S64_ONLY, S8_ONLY, STR_UTIL, U128, U128_ONLY, U16, U16_ONLY,
    U32, U32_ONLY, U64, U64_ONLY, U8, U8_ONLY, UNSIGNED, VARINT, VARINT_MAX, VARINT_ONLY,
};
use crate::repr::flags_int;
use vstd::prelude::*;

verus! {

/// The set holds, with every helper, the helpers that it rests on: a
/// character or a string brings the 64-bit unsigned integer and the text
/// utilities, bytes and lists bring the 64-bit unsigned integer, options and
/// results bring the 32-bit unsigned integer, an integer of any width brings
/// the varint and a signedness, the varint brings its table, and the codec
/// of an integer brings its width and its signedness.
pub open spec fn closed(bits: u32) -> bool {
    &&& bits & CHAR_ONLY != 0 ==> covers(bits, U64 | STR_UTIL)
    &&& bits & STRING_ONLY != 0 ==> covers(bits, U64 | STR_UTIL)
    &&& bits & BYTES_ONLY != 0 ==> covers(bits, U64)
    &&& bits & LIST_ONLY != 0 ==> covers(bits, U64)
    &&& bits & OPTION_ONLY != 0 ==> covers(bits, U32)
    &&& bits & RESULT_ONLY != 0 ==> covers(bits, U32)
    &&& bits & (BITS8 | BITS16 | BITS32 | BITS64 | BITS128) != 0 ==> covers(bits, VARINT) && bits & (
    SIGNED | UNSIGNED) != 0
    &&& bits & VARINT_ONLY != 0 ==> covers(bits, VARINT_MAX)
    &&& bits & U8_ONLY != 0 ==> covers(bits, U8)
    &&& bits & U16_ONLY != 0 ==> covers(bits, U16)
    &&& bits & U32_ONLY != 0 ==> covers(bits, U32)
    &&& bits & U64_ONLY != 0 ==> covers(bits, U64)
    &&& bits & U128_ONLY != 0 ==> covers(bits, U128)
    &&& bits & S8_ONLY != 0 ==> covers(bits, S8)
    &&& bits & S16_ONLY != 0 ==> covers(bits, S16)
    &&& bits & S32_ONLY != 0 ==> covers(bits, S32)
    &&& bits & S64_ONLY != 0 ==> covers(bits, S64)
    &&& bits & S128_ONLY != 0 ==> covers(bits, S128)
}

proof fn lemma_closed_or(a: u32, b: u32)
    by (bit_vector)
    requires
        closed(a),
        closed(b),
    ensures
        closed(a | b),
{
}

proof fn lemma_closed_words()
    by (bit_vector)
    ensures
        closed(0),
        closed(BOOL),
        closed(U8),
        closed(U16),
        closed(U32),
        closed(U64),
        closed(U128),
        closed(S8),
        closed(S16),
        closed(S32),
        closed(S64),
        closed(S128),
        closed(F32),
        closed(F64),
        closed(CHAR),
        closed(STRING),
        closed(BYTES),
        closed(LIST),
        closed(OPTION),
        closed(RESULT),
        closed(SER),
        closed(DE),
{
}

proof fn lemma_closed_or_all(parts: Seq<u32>)
    requires
        forall|i: int| 0 <= i < parts.len() ==> closed(#[trigger] parts[i]),
    ensures
        closed(or_all(parts)),
    decreases parts.len(),
{
    lemma_closed_words();
    if parts.len() > 0 {
        lemma_closed_or_all(parts.drop_last());
        lemma_closed_or(or_all(parts.drop_last()), parts.last());
    }
}

/// What a type needs by itself is closed.
pub proof fn lemma_type_bits_closed(ty: Type)
    ensures
        closed(type_bits(ty)),
    decreases ty,
{
    lemma_closed_words();
    match ty {
        Type::Tuple(tys) => {
            let parts = types_bits(tys);
            assert forall|i: int| 0 <= i < parts.len() implies closed(#[trigger] parts[i]) by {
                lemma_type_bits_closed(tys[i]);
            }
            lemma_closed_or_all(parts);
        },
        Type::List(inner) => {
            lemma_type_bits_closed(*inner);
            lemma_closed_or(LIST, type_bits(*inner));
        },
        Type::Option(inner) => {
            lemma_type_bits_closed(*inner);
            lemma_closed_or(OPTION, type_bits(*inner));
        },
        Type::Result { ok, err } => {
            let ok_bits = match ok {
                Some(t) => type_bits(*t),
                None => 0,
            };
            let err_bits = match err {
                Some(t) => type_bits(*t),
                None => 0,
            };
            if ok is Some {
                lemma_type_bits_closed(*ok->0);
            }
            if err is Some {
                lemma_type_bits_closed(*err->0);
            }
            lemma_closed_or(RESULT, ok_bits);
            lemma_closed_or(RESULT | ok_bits, err_bits);
        },
        _ => {},
    }
}

/// What a type definition needs by itself is closed.
pub proof fn lemma_kind_bits_closed(kind: TypeDefKind)
    ensures
        closed(kind_bits(kind)),
{
    lemma_closed_words();
    match kind {
        TypeDefKind::Alias(ty) => lemma_type_bits_closed(ty),
        TypeDefKind::Record(fields) => {
            let parts = fields@.map_values(|f: crate::ast::RecordField| type_bits(f.ty));
            assert forall|i: int| 0 <= i < parts.len() implies closed(#[trigger] parts[i]) by {
                lemma_type_bits_closed(fields[i].ty);
            }
            lemma_closed_or_all(parts);
        },
        TypeDefKind::Variant(cases) => {
            let parts = cases@.map_values(
                |c: crate::ast::VariantCase|
                    match c.ty {
                        Some(ty) => type_bits(ty),
                        None => 0,
                    },
            );
            assert forall|i: int| 0 <= i < parts.len() implies closed(#[trigger] parts[i]) by {
                if cases[i].ty is Some {
                    lemma_type_bits_closed(cases[i].ty->0);
                }
            }
            lemma_closed_or_all(parts);
            lemma_closed_or(U32, or_all(parts));
        },
        TypeDefKind::Union(cases) => {
            let parts = cases@.map_values(|c: crate::ast::UnionCase| type_bits(c.ty));
            assert forall|i: int| 0 <= i < parts.len() implies closed(#[trigger] parts[i]) by {
                lemma_type_bits_closed(cases[i].ty);
            }
            lemma_closed_or_all(parts);
            lemma_closed_or(U32, or_all(parts));
        },
        TypeDefKind::Flags(fields) => {
            assert(closed(int_bits(flags_int(fields.len() as nat))));
        },
        _ => {},
    }
}

proof fn lemma_reached_bits_closed(typedefs: Seq<TypeDef>, roots: Set<nat>, n: nat)
    ensures
        closed(reached_bits(typedefs, roots, n)),
    decreases n,
{
    lemma_closed_words();
    if n > 0 {
        lemma_reached_bits_closed(typedefs, roots, (n - 1) as nat);
        lemma_kind_bits_closed(typedefs[n - 1].kind);
        let own = if reachable(typedefs, roots, (n - 1) as nat) {
            kind_bits(typedefs[n - 1].kind)
        } else {
            0
        };
        lemma_closed_or(reached_bits(typedefs, roots, (n - 1) as nat), own);
    }
}

proof fn lemma_named_types_bits_closed(types: Seq<(String, Type)>, direction: u32)
    requires
        direction == SER || direction == DE,
    ensures
        closed(named_types_bits(types, direction)),
{
    lemma_closed_words();
    let parts = types.map_values(|t: (String, Type)| direction | type_bits(t.1));
    assert forall|i: int| 0 <= i < parts.len() implies closed(#[trigger] parts[i]) by {
        lemma_type_bits_closed(types[i].1);
        lemma_closed_or(direction, type_bits(types[i].1));
    }
    lemma_closed_or_all(parts);
}

proof fn lemma_function_bits_closed(function: Function)
    ensures
        closed(function_bits(function)),
{
    lemma_closed_words();
    lemma_named_types_bits_closed(function.params@, SER);
    let results = match function.result {
        Some(FunctionResult::Anon(ty)) => DE | type_bits(ty),
        Some(FunctionResult::Named(types)) => named_types_bits(types@, DE),
        None => 0,
    };
    match function.result {
        Some(FunctionResult::Anon(ty)) => {
            lemma_type_bits_closed(ty);
            lemma_closed_or(DE, type_bits(ty));
        },
        Some(FunctionResult::Named(types)) => {
            lemma_named_types_bits_closed(types@, DE);
        },
        None => {},
    }
    lemma_closed_or(named_types_bits(function.params@, SER), results);
}

/// Whatever the arena and the functions, what the solver computes for them
/// holds, with every helper, the helpers that it rests on.
pub proof fn lemma_capabilities_closed(typedefs: Seq<TypeDef>, functions: Seq<Function>)
    ensures
        closed(capabilities(typedefs, functions)),
{
    let parts = functions.map_values(|f: Function| function_bits(f));
    assert forall|i: int| 0 <= i < parts.len() implies closed(#[trigger] parts[i]) by {
        lemma_function_bits_closed(functions[i]);
    }
    lemma_closed_or_all(parts);
    lemma_reached_bits_closed(typedefs, signature_roots(functions), typedefs.len());
    lemma_closed_or(
        functions_bits(functions),
        reached_bits(typedefs, signature_roots(functions), typedefs.len()),
    );
}

proof fn lemma_covers_or(a: u32, b: u32, mask: u32)
    by (bit_vector)
    ensures
        covers(a | b, b),
        covers(a | b, a),
        covers(a, mask) ==> covers(a | b, mask),
        covers(b, mask) ==> covers(a | b, mask),
{
}

proof fn lemma_or_all_covers(parts: Seq<u32>, i: int, mask: u32)
    requires
        0 <= i < parts.len(),
        covers(parts[i], mask),
    ensures
        covers(or_all(parts), mask),
    decreases parts.len(),
{
    lemma_covers_or(or_all(parts.drop_last()), parts.last(), mask);
    if i < parts.len() - 1 {
        lemma_or_all_covers(parts.drop_last(), i, mask);
    }
}

proof fn lemma_reached_bits_cover(typedefs: Seq<TypeDef>, roots: Set<nat>, n: nat, id: nat, mask: u32)
    requires
        id < n,
        reachable(typedefs, roots, id),
        covers(kind_bits(typedefs[id as int].kind), mask),
    ensures
        covers(reached_bits(typedefs, roots, n), mask),
    decreases n,
{
    let own = if reachable(typedefs, roots, (n - 1) as nat) {
        kind_bits(typedefs[n - 1].kind)
    } else {
        0
    };
    lemma_covers_or(reached_bits(typedefs, roots, (n - 1) as nat), own, mask);
    if id < n - 1 {
        lemma_reached_bits_cover(typedefs, roots, (n - 1) as nat, id, mask);
    }
}

/// Nothing that a signature needs is left out: what the solver computes
/// holds whatever the signature of each function needs.
pub proof fn lemma_capabilities_cover_function(
    typedefs: Seq<TypeDef>,
    functions: Seq<Function>,
    i: int,
)
    requires
        0 <= i < functions.len(),
    ensures
        covers(capabilities(typedefs, functions), function_bits(functions[i])),
{
    let parts = functions.map_values(|f: Function| function_bits(f));
    let mask = function_bits(functions[i]);
    assert(covers(parts[i], mask)) by {
        assert(parts[i] & parts[i] == parts[i]) by (bit_vector);
    }
    lemma_or_all_covers(parts, i, mask);
    lemma_covers_or(
        functions_bits(functions),
        reached_bits(typedefs, signature_roots(functions), typedefs.len()),
        mask,
    );
}

/// Nothing that a reachable definition needs is left out: what the solver
/// computes holds whatever each type definition needs that the signatures
/// lead to.
pub proof fn lemma_capabilities_cover_reached(
    typedefs: Seq<TypeDef>,
    functions: Seq<Function>,
    id: nat,
)
    requires
        id < typedefs.len(),
        reachable(typedefs, signature_roots(functions), id),
    ensures
        covers(capabilities(typedefs, functions), kind_bits(typedefs[id as int].kind)),
{
    let mask = kind_bits(typedefs[id as int].kind);
    assert(covers(mask, mask)) by {
        assert(mask & mask == mask) by (bit_vector);
    }
    lemma_reached_bits_cover(typedefs, signature_roots(functions), typedefs.len(), id, mask);
    lemma_covers_or(
        functions_bits(functions),
        reached_bits(typedefs, signature_roots(functions), typedefs.len()),
        mask,
    );
}

/// A function with a parameter makes the script write, and one with a result
/// makes it read.
pub proof fn lemma_directions(function: Function)
    ensures
        function.params.len() > 0 ==> covers(function_bits(function), SER),
        function.result matches Some(r) && r.spec_len() > 0 ==> covers(function_bits(function), DE),
{
    let params = function.params@.map_values(|t: (String, Type)| SER | type_bits(t.1));
    let results = match function.result {
        Some(FunctionResult::Anon(ty)) => DE | type_bits(ty),
        Some(FunctionResult::Named(types)) => named_types_bits(types@, DE),
        None => 0,
    };
    if function.params.len() > 0 {
        lemma_covers_or(SER, type_bits(function.params[0].1), SER);
        lemma_or_all_covers(params, 0, SER);
        lemma_covers_or(named_types_bits(function.params@, SER), results, SER);
    }
    match function.result {
        Some(FunctionResult::Anon(ty)) => {
            lemma_covers_or(DE, type_bits(ty), DE);
            lemma_covers_or(named_types_bits(function.params@, SER), results, DE);
        },
        Some(FunctionResult::Named(types)) => {
            if types.len() > 0 {
                let parts = types@.map_values(|t: (String, Type)| DE | type_bits(t.1));
                lemma_covers_or(DE, type_bits(types[0].1), DE);
                lemma_or_all_covers(parts, 0, DE);
                lemma_covers_or(named_types_bits(function.params@, SER), results, DE);
            }
        },
        None => {},
    }
}

proof fn lemma_bit_of_or(a: u32, b: u32, mask: u32)
    by (bit_vector)
    ensures
        (a | b) & mask != 0 ==> a & mask != 0 || b & mask != 0,
        0u32 & mask == 0,
{
}

proof fn lemma_bit_of_or_all(parts: Seq<u32>, mask: u32) -> (i: int)
    requires
        or_all(parts) & mask != 0,
    ensures
        0 <= i < parts.len(),
        parts[i] & mask != 0,
    decreases parts.len(),
{
    lemma_bit_of_or(0, 0, mask);
    if parts.len() == 0 {
        0
    } else {
        lemma_bit_of_or(or_all(parts.drop_last()), parts.last(), mask);
        if parts.last() & mask != 0 {
            parts.len() - 1
        } else {
            lemma_bit_of_or_all(parts.drop_last(), mask)
        }
    }
}

proof fn lemma_bit_of_reached(typedefs: Seq<TypeDef>, roots: Set<nat>, n: nat, mask: u32) -> (id: nat)
    requires
        reached_bits(typedefs, roots, n) & mask != 0,
    ensures
        id < n,
        reachable(typedefs, roots, id),
        kind_bits(typedefs[id as int].kind) & mask != 0,
    decreases n,
{
    lemma_bit_of_or(0, 0, mask);
    if n == 0 {
        0
    } else {
        let own = if reachable(typedefs, roots, (n - 1) as nat) {
            kind_bits(typedefs[n - 1].kind)
        } else {
            0
        };
        lemma_bit_of_or(reached_bits(typedefs, roots, (n - 1) as nat), own, mask);
        if own & mask != 0 {
            (n - 1) as nat
        } else {
            lemma_bit_of_reached(typedefs, roots, (n - 1) as nat, mask)
        }
    }
}

/// Nothing is forced on without a cause: whatever bit the solver sets is
/// needed by the signature of one of the functions, or by a type definition
/// that the signatures lead to.
pub proof fn lemma_capabilities_have_cause(
    typedefs: Seq<TypeDef>,
    functions: Seq<Function>,
    mask: u32,
)
    requires
        capabilities(typedefs, functions) & mask != 0,
    ensures
        (exists|i: int| 0 <= i < functions.len() && function_bits(#[trigger] functions[i]) & mask != 0)
            || (exists|id: nat|
            id < typedefs.len() && #[trigger] reachable(typedefs, signature_roots(functions), id)
                && kind_bits(typedefs[id as int].kind) & mask != 0),
{
    let own = functions_bits(functions);
    let reached = reached_bits(typedefs, signature_roots(functions), typedefs.len());
    lemma_bit_of_or(own, reached, mask);
    if own & mask != 0 {
        let parts = functions.map_values(|f: Function| function_bits(f));
        let i = lemma_bit_of_or_all(parts, mask);
        assert(function_bits(functions[i]) & mask != 0);
    } else {
        let id = lemma_bit_of_reached(typedefs, signature_roots(functions), typedefs.len(), mask);
        assert(reachable(typedefs, signature_roots(functions), id));
    }
}

proof fn lemma_nothing_reached(typedefs: Seq<TypeDef>, n: nat)
    ensures
        reached_bits(typedefs, Set::<nat>::empty(), n) == 0,
    decreases n,
{
    if n > 0 {
        lemma_nothing_reached(typedefs, (n - 1) as nat);
        let roots = Set::<nat>::empty();
        assert(!reachable(typedefs, roots, (n - 1) as nat)) by {
            if reachable(typedefs, roots, (n - 1) as nat) {
                let path = choose|path: Seq<nat>| is_path(typedefs, roots, path) && #[trigger] path.last() == (n - 1) as nat;
                assert(roots.contains(path[0]));
            }
        }
        assert(0u32 | 0u32 == 0u32) by (bit_vector);
    }
}

/// An interface without functions needs no helper, whatever its arena holds.
pub proof fn lemma_no_functions_no_capabilities(typedefs: Seq<TypeDef>)
    ensures
        capabilities(typedefs, Seq::<Function>::empty()) == 0,
{
    let functions = Seq::<Function>::empty();
    assert(signature_roots(functions) == Set::<nat>::empty());
    lemma_nothing_reached(typedefs, typedefs.len());
    assert(functions.map_values(|f: Function| function_bits(f)).len() == 0);
    assert(0u32 | 0u32 == 0u32) by (bit_vector);
}

/// The place of a bit that stands for a codec or for a direction.
spec fn told(p: u32) -> bool {
    p == 2 || p == 3 || (11 <= p && p <= 21) || (23 <= p && p <= 31)
}

/// Which of the bits that stand for a codec or a direction each word holds.
proof fn lemma_words(p: u32)
    by (bit_vector)
    requires
        told(p),
    ensures
        0u32 & (1u32 << p) == 0,
        VARINT & (1u32 << p) != 0 <==> p == 2,
        BOOL & (1u32 << p) != 0 <==> p == 3,
        U8 & (1u32 << p) != 0 <==> p == 23 || p == 2,
        U16 & (1u32 << p) != 0 <==> p == 24 || p == 2,
        U32 & (1u32 << p) != 0 <==> p == 25 || p == 2,
        U64 & (1u32 << p) != 0 <==> p == 26 || p == 2,
        U128 & (1u32 << p) != 0 <==> p == 27 || p == 2,
        S8 & (1u32 << p) != 0 <==> p == 28 || p == 2,
        S16 & (1u32 << p) != 0 <==> p == 29 || p == 2,
        S32 & (1u32 << p) != 0 <==> p == 30 || p == 2,
        S64 & (1u32 << p) != 0 <==> p == 31 || p == 2,
        S128 & (1u32 << p) != 0 <==> p == 11 || p == 2,
        F32 & (1u32 << p) != 0 <==> p == 12,
        F64 & (1u32 << p) != 0 <==> p == 13,
        CHAR & (1u32 << p) != 0 <==> p == 14 || p == 26 || p == 2,
        STRING & (1u32 << p) != 0 <==> p == 15 || p == 26 || p == 2,
        BYTES & (1u32 << p) != 0 <==> p == 16 || p == 26 || p == 2,
        OPTION & (1u32 << p) != 0 <==> p == 17 || p == 25 || p == 2,
        RESULT & (1u32 << p) != 0 <==> p == 18 || p == 25 || p == 2,
        LIST & (1u32 << p) != 0 <==> p == 19 || p == 26 || p == 2,
        DE & (1u32 << p) != 0 <==> p == 20,
        SER & (1u32 << p) != 0 <==> p == 21,
{
}

/// The bits of a codec hold the bit of another where the codec does not
/// work without the other, and nowhere else.
pub proof fn lemma_word_brings(own: Codec, codec: Codec)
    ensures
        own.word() & codec.flag() != 0 <==> own.brings(codec),
{
    lemma_words(codec.bit());
}

proof fn lemma_or_bit(a: u32, b: u32, mask: u32)
    by (bit_vector)
    ensures
        (a | b) & mask != 0 <==> a & mask != 0 || b & mask != 0,
{
}

proof fn lemma_or_all_bit(parts: Seq<u32>, mask: u32)
    ensures
        or_all(parts) & mask != 0 <==> exists|i: int|
            0 <= i < parts.len() && #[trigger] parts[i] & mask != 0,
    decreases parts.len(),
{
    lemma_bit_of_or(0, 0, mask);
    if parts.len() > 0 {
        let head = parts.drop_last();
        lemma_or_all_bit(head, mask);
        lemma_or_bit(or_all(head), parts.last(), mask);
        if or_all(parts) & mask != 0 {
            if parts.last() & mask != 0 {
                assert(parts[parts.len() - 1] & mask != 0);
            } else {
                let i = choose|i: int| 0 <= i < head.len() && #[trigger] head[i] & mask != 0;
                assert(parts[i] & mask != 0);
            }
        }
        if exists|i: int| 0 <= i < parts.len() && #[trigger] parts[i] & mask != 0 {
            let i = choose|i: int| 0 <= i < parts.len() && #[trigger] parts[i] & mask != 0;
            if i < head.len() {
                assert(head[i] & mask != 0);
            }
        }
    }
}

/// The bits of a type hold the bit of a codec where a value of the type is
/// read or written with the codec, and nowhere else.
pub proof fn lemma_type_bits_tell(ty: Type, codec: Codec)
    ensures
        type_bits(ty) & codec.flag() != 0 <==> type_uses(ty, codec),
    decreases ty,
{
    let flag = codec.flag();
    lemma_words(codec.bit());
    match ty {
        Type::Tuple(tys) => {
            let parts = types_bits(tys);
            lemma_or_all_bit(parts, flag);
            assert forall|i: int| 0 <= i < tys.len() implies (#[trigger] parts[i] & flag != 0
                <==> type_uses(tys[i], codec)) by {
                lemma_type_bits_tell(tys[i], codec);
            }
            if or_all(parts) & flag != 0 {
                let i = choose|i: int| 0 <= i < parts.len() && #[trigger] parts[i] & flag != 0;
                assert(type_uses(tys[i], codec));
            }
            if types_use(tys, codec) {
                let i = choose|i: int| 0 <= i < tys.len() && type_uses(#[trigger] tys[i], codec);
                assert(parts[i] & flag != 0);
            }
        },
        Type::List(inner) => {
            if *inner == Type::U8 {
                lemma_word_brings(Codec::Bytes, codec);
            } else {
                lemma_word_brings(Codec::List, codec);
                lemma_type_bits_tell(*inner, codec);
                lemma_or_bit(LIST, type_bits(*inner), flag);
            }
        },
        Type::Option(inner) => {
            lemma_word_brings(Codec::Option, codec);
            lemma_type_bits_tell(*inner, codec);
            lemma_or_bit(OPTION, type_bits(*inner), flag);
        },
        Type::Result { ok, err } => {
            lemma_word_brings(Codec::Result, codec);
            let ok_bits = match ok {
                Some(t) => type_bits(*t),
                None => 0,
            };
            let err_bits = match err {
                Some(t) => type_bits(*t),
                None => 0,
            };
            if ok is Some {
                lemma_type_bits_tell(*ok->0, codec);
            }
            if err is Some {
                lemma_type_bits_tell(*err->0, codec);
            }
            lemma_or_bit(RESULT, ok_bits, flag);
            lemma_or_bit(RESULT | ok_bits, err_bits, flag);
        },
        Type::Id(_) => {},
        _ => {
            lemma_word_brings(own_codec(ty)->0, codec);
        },
    }
}

/// The bits of a type hold no direction.
proof fn lemma_type_bits_plain(ty: Type, p: u32)
    requires
        p == 20 || p == 21,
    ensures
        type_bits(ty) & (1u32 << p) == 0,
    decreases ty,
{
    let flag = 1u32 << p;
    lemma_words(p);
    match ty {
        Type::Tuple(tys) => {
            let parts = types_bits(tys);
            lemma_or_all_bit(parts, flag);
            assert forall|i: int| 0 <= i < parts.len() implies #[trigger] parts[i] & flag == 0 by {
                lemma_type_bits_plain(tys[i], p);
            }
        },
        Type::List(inner) => {
            lemma_type_bits_plain(*inner, p);
            lemma_or_bit(LIST, type_bits(*inner), flag);
        },
        Type::Option(inner) => {
            lemma_type_bits_plain(*inner, p);
            lemma_or_bit(OPTION, type_bits(*inner), flag);
        },
        Type::Result { ok, err } => {
            let ok_bits = match ok {
                Some(t) => type_bits(*t),
                None => 0,
            };
            let err_bits = match err {
                Some(t) => type_bits(*t),
                None => 0,
            };
            if ok is Some {
                lemma_type_bits_plain(*ok->0, p);
            }
            if err is Some {
                lemma_type_bits_plain(*err->0, p);
            }
            lemma_or_bit(RESULT, ok_bits, flag);
            lemma_or_bit(RESULT | ok_bits, err_bits, flag);
        },
        _ => {},
    }
}

/// The bits of a type definition hold the bit of a codec where a value of
/// the defined type is read or written with the codec, and nowhere else.
pub proof fn lemma_kind_bits_tell(kind: TypeDefKind, codec: Codec)
    ensures
        kind_bits(kind) & codec.flag() != 0 <==> kind_uses(kind, codec),
{
    let flag = codec.flag();
    lemma_words(codec.bit());
    lemma_word_brings(Codec::U32, codec);
    match kind {
        TypeDefKind::Alias(ty) => lemma_type_bits_tell(ty, codec),
        TypeDefKind::Record(fields) => {
            let parts = fields@.map_values(|f: crate::ast::RecordField| type_bits(f.ty));
            lemma_or_all_bit(parts, flag);
            assert forall|i: int| 0 <= i < fields.len() implies (#[trigger] parts[i] & flag != 0
                <==> type_uses(fields[i].ty, codec)) by {
                lemma_type_bits_tell(fields[i].ty, codec);
            }
            if or_all(parts) & flag != 0 {
                let i = choose|i: int| 0 <= i < parts.len() && #[trigger] parts[i] & flag != 0;
                assert(type_uses(fields[i].ty, codec));
            }
            if kind_uses(kind, codec) {
                let i = choose|i: int|
                    0 <= i < fields.len() && type_uses((#[trigger] fields[i]).ty, codec);
                assert(parts[i] & flag != 0);
            }
        },
        TypeDefKind::Variant(cases) => {
            let parts = cases@.map_values(
                |c: crate::ast::VariantCase|
                    match c.ty {
                        Some(ty) => type_bits(ty),
                        None => 0,
                    },
            );
            lemma_or_all_bit(parts, flag);
            lemma_or_bit(U32, or_all(parts), flag);
            assert forall|i: int| 0 <= i < cases.len() implies (#[trigger] parts[i] & flag != 0 <==> (
            cases[i].ty matches Some(ty) && type_uses(ty, codec))) by {
                if cases[i].ty is Some {
                    lemma_type_bits_tell(cases[i].ty->0, codec);
                }
            }
            if or_all(parts) & flag != 0 {
                let i = choose|i: int| 0 <= i < parts.len() && #[trigger] parts[i] & flag != 0;
                assert(cases[i].ty matches Some(ty) && type_uses(ty, codec));
            }
            if exists|i: int|
                0 <= i < cases.len() && ((#[trigger] cases[i]).ty matches Some(ty) && type_uses(
                    ty,
                    codec,
                )) {
                let i = choose|i: int|
                    0 <= i < cases.len() && ((#[trigger] cases[i]).ty matches Some(ty) && type_uses(
                        ty,
                        codec,
                    ));
                assert(parts[i] & flag != 0);
            }
        },
        TypeDefKind::Union(cases) => {
            let parts = cases@.map_values(|c: crate::ast::UnionCase| type_bits(c.ty));
            lemma_or_all_bit(parts, flag);
            lemma_or_bit(U32, or_all(parts), flag);
            assert forall|i: int| 0 <= i < cases.len() implies (#[trigger] parts[i] & flag != 0
                <==> type_uses(cases[i].ty, codec)) by {
                lemma_type_bits_tell(cases[i].ty, codec);
            }
            if or_all(parts) & flag != 0 {
                let i = choose|i: int| 0 <= i < parts.len() && #[trigger] parts[i] & flag != 0;
                assert(type_uses(cases[i].ty, codec));
            }
            if exists|i: int| 0 <= i < cases.len() && type_uses((#[trigger] cases[i]).ty, codec) {
                let i = choose|i: int|
                    0 <= i < cases.len() && type_uses((#[trigger] cases[i]).ty, codec);
                assert(parts[i] & flag != 0);
            }
        },
        TypeDefKind::Enum(_) => {},
        TypeDefKind::Resource(_) => {},
        TypeDefKind::Flags(fields) => {
            let repr = flags_int(fields.len() as nat);
            lemma_word_brings(int_codec(repr), codec);
        },
    }
}

/// The bits of a type definition hold no direction.
proof fn lemma_kind_bits_plain(kind: TypeDefKind, p: u32)
    requires
        p == 20 || p == 21,
    ensures
        kind_bits(kind) & (1u32 << p) == 0,
{
    let flag = 1u32 << p;
    lemma_words(p);
    match kind {
        TypeDefKind::Alias(ty) => lemma_type_bits_plain(ty, p),
        TypeDefKind::Record(fields) => {
            let parts = fields@.map_values(|f: crate::ast::RecordField| type_bits(f.ty));
            lemma_or_all_bit(parts, flag);
            assert forall|i: int| 0 <= i < parts.len() implies #[trigger] parts[i] & flag == 0 by {
                lemma_type_bits_plain(fields[i].ty, p);
            }
        },
        TypeDefKind::Variant(cases) => {
            let parts = cases@.map_values(
                |c: crate::ast::VariantCase|
                    match c.ty {
                        Some(ty) => type_bits(ty),
                        None => 0,
                    },
            );
            lemma_or_all_bit(parts, flag);
            lemma_or_bit(U32, or_all(parts), flag);
            assert forall|i: int| 0 <= i < parts.len() implies #[trigger] parts[i] & flag == 0 by {
                if cases[i].ty is Some {
                    lemma_type_bits_plain(cases[i].ty->0, p);
                }
            }
        },
        TypeDefKind::Union(cases) => {
            let parts = cases@.map_values(|c: crate::ast::UnionCase| type_bits(c.ty));
            lemma_or_all_bit(parts, flag);
            lemma_or_bit(U32, or_all(parts), flag);
            assert forall|i: int| 0 <= i < parts.len() implies #[trigger] parts[i] & flag == 0 by {
                lemma_type_bits_plain(cases[i].ty, p);
            }
        },
        TypeDefKind::Enum(_) => {},
        TypeDefKind::Resource(_) => {},
        TypeDefKind::Flags(fields) => {},
    }
}

proof fn lemma_reached_bits_bit(typedefs: Seq<TypeDef>, roots: Set<nat>, n: nat, mask: u32)
    ensures
        reached_bits(typedefs, roots, n) & mask != 0 <==> exists|id: nat|
            id < n && #[trigger] reachable(typedefs, roots, id) && kind_bits(
                typedefs[id as int].kind,
            ) & mask != 0,
    decreases n,
{
    lemma_bit_of_or(0, 0, mask);
    if n > 0 {
        let last = (n - 1) as nat;
        let own = if reachable(typedefs, roots, last) {
            kind_bits(typedefs[n - 1].kind)
        } else {
            0
        };
        lemma_reached_bits_bit(typedefs, roots, last, mask);
        lemma_or_bit(reached_bits(typedefs, roots, last), own, mask);
        if reached_bits(typedefs, roots, n) & mask != 0 {
            if own & mask != 0 {
                assert(reachable(typedefs, roots, last) && kind_bits(typedefs[last as int].kind)
                    & mask != 0);
            } else {
                let id = choose|id: nat|
                    id < last && #[trigger] reachable(typedefs, roots, id) && kind_bits(
                        typedefs[id as int].kind,
                    ) & mask != 0;
                assert(id < n && reachable(typedefs, roots, id));
            }
        }
        if exists|id: nat|
            id < n && #[trigger] reachable(typedefs, roots, id) && kind_bits(
                typedefs[id as int].kind,
            ) & mask != 0 {
            let id = choose|id: nat|
                id < n && #[trigger] reachable(typedefs, roots, id) && kind_bits(
                    typedefs[id as int].kind,
                ) & mask != 0;
            if id < last {
                assert(reachable(typedefs, roots, id));
            }
        }
    }
}

proof fn lemma_named_types_bits_tell(types: Seq<(String, Type)>, direction: u32, codec: Codec)
    requires
        direction == SER || direction == DE,
    ensures
        named_types_bits(types, direction) & codec.flag() != 0 <==> named_types_use(types, codec),
{
    let flag = codec.flag();
    lemma_words(codec.bit());
    let parts = types.map_values(|t: (String, Type)| direction | type_bits(t.1));
    lemma_or_all_bit(parts, flag);
    assert forall|i: int| 0 <= i < types.len() implies (#[trigger] parts[i] & flag != 0 <==> type_uses(
        types[i].1,
        codec,
    )) by {
        lemma_type_bits_tell(types[i].1, codec);
        lemma_or_bit(direction, type_bits(types[i].1), flag);
    }
    if or_all(parts) & flag != 0 {
        let i = choose|i: int| 0 <= i < parts.len() && #[trigger] parts[i] & flag != 0;
        assert(type_uses(types[i].1, codec));
    }
    if named_types_use(types, codec) {
        let i = choose|i: int| 0 <= i < types.len() && type_uses((#[trigger] types[i]).1, codec);
        assert(parts[i] & flag != 0);
    }
}

/// The bits of a signature hold the bit of a codec where the signature uses
/// the codec, and nowhere else.
pub proof fn lemma_function_bits_tell(function: Function, codec: Codec)
    ensures
        function_bits(function) & codec.flag() != 0 <==> function_uses(function, codec),
{
    let flag = codec.flag();
    lemma_words(codec.bit());
    let results = match function.result {
        Some(FunctionResult::Anon(ty)) => DE | type_bits(ty),
        Some(FunctionResult::Named(types)) => named_types_bits(types@, DE),
        None => 0,
    };
    lemma_named_types_bits_tell(function.params@, SER, codec);
    lemma_or_bit(named_types_bits(function.params@, SER), results, flag);
    match function.result {
        Some(FunctionResult::Anon(ty)) => {
            lemma_type_bits_tell(ty, codec);
            lemma_or_bit(DE, type_bits(ty), flag);
        },
        Some(FunctionResult::Named(types)) => {
            lemma_named_types_bits_tell(types@, DE, codec);
        },
        None => {},
    }
}

/// What the solver computes holds the bit of a codec where a script that
/// calls the functions uses the codec, and nowhere else: no codec that is
/// needed is left out, and none is forced on that nothing uses.
pub proof fn lemma_capabilities_tell(typedefs: Seq<TypeDef>, functions: Seq<Function>, codec: Codec)
    ensures
        capabilities(typedefs, functions) & codec.flag() != 0 <==> needed(typedefs, functions, codec),
{
    let flag = codec.flag();
    let roots = signature_roots(functions);
    let parts = functions.map_values(|f: Function| function_bits(f));
    lemma_or_bit(functions_bits(functions), reached_bits(typedefs, roots, typedefs.len()), flag);
    lemma_or_all_bit(parts, flag);
    lemma_reached_bits_bit(typedefs, roots, typedefs.len(), flag);
    assert forall|i: int| 0 <= i < functions.len() implies (#[trigger] parts[i] & flag != 0
        <==> function_uses(functions[i], codec)) by {
        lemma_function_bits_tell(functions[i], codec);
    }
    assert forall|id: nat| id < typedefs.len() implies (kind_bits(
        #[trigger] typedefs[id as int].kind,
    ) & flag != 0 <==> kind_uses(typedefs[id as int].kind, codec)) by {
        lemma_kind_bits_tell(typedefs[id as int].kind, codec);
    }
    if capabilities(typedefs, functions) & flag != 0 {
        if functions_bits(functions) & flag != 0 {
            let i = choose|i: int| 0 <= i < parts.len() && #[trigger] parts[i] & flag != 0;
            assert(function_uses(functions[i], codec));
        } else {
            let id = choose|id: nat|
                id < typedefs.len() && #[trigger] reachable(typedefs, roots, id) && kind_bits(
                    typedefs[id as int].kind,
                ) & flag != 0;
            assert(reachable(typedefs, roots, id) && kind_uses(typedefs[id as int].kind, codec));
        }
    }
    if needed(typedefs, functions, codec) {
        if exists|i: int| 0 <= i < functions.len() && function_uses(#[trigger] functions[i], codec) {
            let i = choose|i: int|
                0 <= i < functions.len() && function_uses(#[trigger] functions[i], codec);
            assert(parts[i] & flag != 0);
        } else {
            let id = choose|id: nat|
                id < typedefs.len() && #[trigger] reachable(typedefs, roots, id) && kind_uses(
                    typedefs[id as int].kind,
                    codec,
                );
            assert(reachable(typedefs, roots, id) && kind_bits(typedefs[id as int].kind) & flag != 0);
        }
    }
}

proof fn lemma_named_types_direction(types: Seq<(String, Type)>, direction: u32, p: u32)
    requires
        direction == SER || direction == DE,
        p == 20 || p == 21,
    ensures
        named_types_bits(types, direction) & (1u32 << p) != 0 <==> types.len() > 0 && direction == (
        1u32 << p),
{
    let flag = 1u32 << p;
    lemma_words(p);
    assert(SER == 1u32 << 21 && DE == 1u32 << 20) by (bit_vector);
    let parts = types.map_values(|t: (String, Type)| direction | type_bits(t.1));
    lemma_or_all_bit(parts, flag);
    assert forall|i: int| 0 <= i < types.len() implies (#[trigger] parts[i] & flag != 0 <==> direction
        == flag) by {
        lemma_type_bits_plain(types[i].1, p);
        lemma_or_bit(direction, type_bits(types[i].1), flag);
    }
    if types.len() > 0 && direction == flag {
        assert(parts[0] & flag != 0);
    }
}

/// What the solver computes holds a direction where something travels in
/// it, and nowhere else.
pub proof fn lemma_capabilities_tell_direction(
    typedefs: Seq<TypeDef>,
    functions: Seq<Function>,
    direction: Direction,
)
    ensures
        covers(capabilities(typedefs, functions), direction.mask()) <==> travels(
            functions,
            direction,
        ),
{
    let p: u32 = match direction {
        Direction::De => 20,
        Direction::Ser => 21,
    };
    let flag = 1u32 << p;
    lemma_words(p);
    assert(SER == 1u32 << 21 && DE == 1u32 << 20) by (bit_vector);
    assert(direction.mask() == flag);
    let bits = capabilities(typedefs, functions);
    lemma_single_bit(bits, p);
    let roots = signature_roots(functions);
    let parts = functions.map_values(|f: Function| function_bits(f));
    lemma_or_bit(functions_bits(functions), reached_bits(typedefs, roots, typedefs.len()), flag);
    lemma_or_all_bit(parts, flag);
    lemma_reached_bits_bit(typedefs, roots, typedefs.len(), flag);
    assert forall|id: nat| id < typedefs.len() implies kind_bits(#[trigger] typedefs[id as int].kind)
        & flag == 0 by {
        lemma_kind_bits_plain(typedefs[id as int].kind, p);
    }
    assert forall|i: int| 0 <= i < functions.len() implies (#[trigger] parts[i] & flag != 0 <==> (
    match direction {
        Direction::Ser => functions[i].params.len() > 0,
        Direction::De => functions[i].result matches Some(r) && r.spec_len() > 0,
    })) by {
        let function = functions[i];
        let results = match function.result {
            Some(FunctionResult::Anon(ty)) => DE | type_bits(ty),
            Some(FunctionResult::Named(types)) => named_types_bits(types@, DE),
            None => 0,
        };
        lemma_named_types_direction(function.params@, SER, p);
        lemma_or_bit(named_types_bits(function.params@, SER), results, flag);
        match function.result {
            Some(FunctionResult::Anon(ty)) => {
                lemma_type_bits_plain(ty, p);
                lemma_or_bit(DE, type_bits(ty), flag);
            },
            Some(FunctionResult::Named(types)) => {
                lemma_named_types_direction(types@, DE, p);
            },
            None => {},
        }
    }
    if bits & flag != 0 {
        let i = choose|i: int| 0 <= i < parts.len() && #[trigger] parts[i] & flag != 0;
        match direction {
            Direction::Ser => {
                assert(functions[i].params.len() > 0);
            },
            Direction::De => {
                assert(functions[i].result matches Some(r) && r.spec_len() > 0);
            },
        }
    }
    if travels(functions, direction) {
        match direction {
            Direction::Ser => {
                let i = choose|i: int|
                    0 <= i < functions.len() && (#[trigger] functions[i]).params.len() > 0;
                assert(parts[i] & flag != 0);
            },
            Direction::De => {
                let i = choose|i: int|
                    0 <= i < functions.len() && ((#[trigger] functions[i]).result matches Some(r)
                        && r.spec_len() > 0);
                assert(parts[i] & flag != 0);
            },
        }
    }
}

proof fn lemma_single_bit(bits: u32, p: u32)
    by (bit_vector)
    requires
        p < 32,
    ensures
        covers(bits, 1u32 << p) <==> bits & (1u32 << p) != 0,
{
}

proof fn lemma_covers_both(bits: u32, a: u32, b: u32)
    by (bit_vector)
    ensures
        covers(bits, a | b) <==> covers(bits, a) && covers(bits, b),
{
}

proof fn lemma_varint_in_closed(bits: u32)
    by (bit_vector)
    requires
        closed(bits),
    ensures
        covers(bits, VARINT) <==> bits & (1u32 << 2) != 0,
{
}

proof fn lemma_masks()
    by (bit_vector)
    ensures
        BOOL == 1u32 << 3,
        U8_ONLY == 1u32 << 23,
        U16_ONLY == 1u32 << 24,
        U32_ONLY == 1u32 << 25,
        U64_ONLY == 1u32 << 26,
        U128_ONLY == 1u32 << 27,
        S8_ONLY == 1u32 << 28,
        S16_ONLY == 1u32 << 29,
        S32_ONLY == 1u32 << 30,
        S64_ONLY == 1u32 << 31,
        S128_ONLY == 1u32 << 11,
        F32 == 1u32 << 12,
        F64 == 1u32 << 13,
        CHAR_ONLY == 1u32 << 14,
        STRING_ONLY == 1u32 << 15,
        BYTES_ONLY == 1u32 << 16,
        OPTION_ONLY == 1u32 << 17,
        RESULT_ONLY == 1u32 << 18,
        LIST_ONLY == 1u32 << 19,
{
}

/// In a set that holds, with every helper, the helpers that it rests on,
/// the bits that ask for a codec are there where the bit of the codec
/// itself is.
pub proof fn lemma_mask_in_closed(bits: u32, codec: Codec)
    requires
        closed(bits),
    ensures
        covers(bits, codec.mask()) <==> bits & codec.flag() != 0,
{
    lemma_masks();
    lemma_single_bit(bits, codec.bit());
    lemma_varint_in_closed(bits);
}

/// A set selects the helper of a codec in a direction where it holds the
/// bits that ask for the codec, and the direction, and nowhere else.
pub proof fn lemma_selected_codec(bits: u32, direction: Direction, codec: Codec)
    ensures
        (SerdeUtils { bits }).selected().contains(Snippet::Codec(direction, codec)) <==> covers(
            bits,
            codec.mask(),
        ) && covers(bits, direction.mask()),
{
    let all = Snippet::all();
    let wanted = |s: Snippet| covers(bits, s.mask());
    let snippet = Snippet::Codec(direction, codec);
    let at: int = match direction {
        Direction::De => 2 + codec.ordinal() as int,
        Direction::Ser => 2 + 20 + codec.ordinal() as int,
    };
    assert(Codec::all()[codec.ordinal() as int] == codec);
    assert(Snippet::codecs(direction)[codec.ordinal() as int] == snippet);
    assert(all.len() == 44);
    assert(all[at] == snippet);
    lemma_covers_both(bits, codec.mask(), direction.mask());
    assert((SerdeUtils { bits }).selected() == all.filter(wanted));
    if wanted(snippet) {
        all.lemma_filter_contains(wanted, at);
    }
    if all.filter(wanted).contains(snippet) {
        let k = choose|k: int| 0 <= k < all.filter(wanted).len() && all.filter(wanted)[k] == snippet;
        all.lemma_filter_pred(wanted, k);
    }
}

/// The helper of a codec in a direction is among what a script starts with
/// where something travels in that direction and the script uses the codec:
/// a type with that codec occurs in a signature or in a type definition that
/// the signatures lead to, or one occurs there that does not work without
/// it, as a set of flags backed by an integer, a length or a tag. Nowhere
/// else is the helper selected.
pub proof fn lemma_helper_selected_where_needed(
    typedefs: Seq<TypeDef>,
    functions: Seq<Function>,
    direction: Direction,
    codec: Codec,
)
    ensures
        (SerdeUtils { bits: capabilities(typedefs, functions) }).selected().contains(
            Snippet::Codec(direction, codec),
        ) <==> travels(functions, direction) && needed(typedefs, functions, codec),
{
    let bits = capabilities(typedefs, functions);
    lemma_selected_codec(bits, direction, codec);
    lemma_capabilities_closed(typedefs, functions);
    lemma_mask_in_closed(bits, codec);
    lemma_capabilities_tell(typedefs, functions, codec);
    lemma_capabilities_tell_direction(typedefs, functions, direction);
}

/// The type stands in the signature of the function, where its values
/// travel in the direction: as the type of a parameter, which is written, or
/// of a result, which is read.
pub open spec fn signature_holds(function: Function, direction: u32, ty: Type) -> bool {
    ||| direction == SER && exists|k: int|
        0 <= k < function.params.len() && (#[trigger] function.params[k]).1 == ty
    ||| direction == DE && (function.result matches Some(FunctionResult::Anon(t)) && t == ty)
    ||| direction == DE && (function.result matches Some(FunctionResult::Named(types)) && exists|
        k: int,
    | 0 <= k < types.len() && (#[trigger] types[k]).1 == ty)
}

proof fn lemma_covers_facts(x: u32, a: u32, b: u32)
    by (bit_vector)
    ensures
        covers(x, 0),
        covers(x, x),
        covers(x, a) && covers(x, b) ==> covers(x, a | b),
        covers(x, a) && covers(a, b) ==> covers(x, b),
        covers(x, a) && covers(a, x) ==> x == a,
        covers(x, a | b) ==> covers(x, a) && covers(x, b),
{
}

proof fn lemma_covers_parts(x: u32, direction: u32, own: u32, reached: u32)
    by (bit_vector)
    ensures
        covers(x, direction | (own | reached)) <==> covers(x, direction | own) && covers(x, reached),
{
}

proof fn lemma_covers_or_all(x: u32, parts: Seq<u32>)
    requires
        forall|i: int| 0 <= i < parts.len() ==> covers(x, #[trigger] parts[i]),
    ensures
        covers(x, or_all(parts)),
    decreases parts.len(),
{
    lemma_covers_facts(x, 0, 0);
    if parts.len() > 0 {
        let head = parts.drop_last();
        assert forall|i: int| 0 <= i < head.len() implies covers(x, #[trigger] head[i]) by {
            assert(head[i] == parts[i]);
        }
        lemma_covers_or_all(x, head);
        lemma_covers_facts(x, or_all(head), parts.last());
    }
}

proof fn lemma_or_all_covers_each(parts: Seq<u32>, i: int)
    requires
        0 <= i < parts.len(),
    ensures
        covers(or_all(parts), parts[i]),
{
    lemma_covers_facts(parts[i], 0, 0);
    lemma_or_all_covers(parts, i, parts[i]);
}

proof fn lemma_covers_reached(x: u32, typedefs: Seq<TypeDef>, roots: Set<nat>, n: nat)
    requires
        forall|id: nat|
            id < n && #[trigger] reachable(typedefs, roots, id) ==> covers(
                x,
                kind_bits(typedefs[id as int].kind),
            ),
    ensures
        covers(x, reached_bits(typedefs, roots, n)),
    decreases n,
{
    lemma_covers_facts(x, 0, 0);
    if n > 0 {
        let last = (n - 1) as nat;
        lemma_covers_reached(x, typedefs, roots, last);
        let own = if reachable(typedefs, roots, last) {
            kind_bits(typedefs[n - 1].kind)
        } else {
            0
        };
        if reachable(typedefs, roots, last) {
            assert(covers(x, kind_bits(typedefs[last as int].kind)));
        }
        lemma_covers_facts(x, reached_bits(typedefs, roots, last), own);
    }
}

/// What holds of a type in the signature of a function: the signature's
/// bits hold the type's, and what the function needs holds what the type
/// needs with all that it leads to.
proof fn lemma_signature_holds(typedefs: Seq<TypeDef>, function: Function, direction: u32, ty: Type)
    requires
        signature_holds(function, direction, ty),
    ensures
        covers(function_bits(function), direction | type_bits(ty)),
        covers(function_capabilities(typedefs, function), direction | type_capabilities(typedefs, ty)),
        forall|id: nat| type_mentions(ty, id) ==> function_mentions(function, id),
{
    let results = match function.result {
        Some(FunctionResult::Anon(t)) => DE | type_bits(t),
        Some(FunctionResult::Named(types)) => named_types_bits(types@, DE),
        None => 0,
    };
    let full_results = match function.result {
        Some(FunctionResult::Anon(t)) => DE | type_capabilities(typedefs, t),
        Some(FunctionResult::Named(types)) => named_types_capabilities(typedefs, types@, DE),
        None => 0,
    };
    let params = named_types_bits(function.params@, SER);
    let full_params = named_types_capabilities(typedefs, function.params@, SER);
    lemma_covers_or(params, results, direction | type_bits(ty));
    lemma_covers_or(full_params, full_results, direction | type_capabilities(typedefs, ty));
    lemma_covers_facts(direction | type_bits(ty), 0, 0);
    lemma_covers_facts(direction | type_capabilities(typedefs, ty), 0, 0);
    if direction == SER && exists|k: int|
        0 <= k < function.params.len() && (#[trigger] function.params[k]).1 == ty {
        let k = choose|k: int| 0 <= k < function.params.len() && (#[trigger] function.params[k]).1 == ty;
        let parts = function.params@.map_values(|t: (String, Type)| SER | type_bits(t.1));
        let full = function.params@.map_values(
            |t: (String, Type)| SER | type_capabilities(typedefs, t.1),
        );
        lemma_or_all_covers_each(parts, k);
        lemma_or_all_covers_each(full, k);
        assert forall|id: nat| type_mentions(ty, id) implies function_mentions(function, id) by {
            assert(type_mentions(function.params[k].1, id));
        }
    } else if function.result is Some && function.result->0 is Anon {
    } else {
        let types = function.result->0->Named_0;
        let k = choose|k: int| 0 <= k < types.len() && (#[trigger] types[k]).1 == ty;
        let parts = types@.map_values(|t: (String, Type)| DE | type_bits(t.1));
        let full = types@.map_values(|t: (String, Type)| DE | type_capabilities(typedefs, t.1));
        lemma_or_all_covers_each(parts, k);
        lemma_or_all_covers_each(full, k);
        assert forall|id: nat| type_mentions(ty, id) implies function_mentions(function, id) by {
            assert(type_mentions(types[k].1, id));
        }
    }
}

/// What holds of every type in the signature of a function holds of the
/// function: of its bits, and of what it needs.
proof fn lemma_signature_covered(x: u32, typedefs: Seq<TypeDef>, function: Function, full: bool)
    requires
        forall|direction: u32, ty: Type| #[trigger]
            signature_holds(function, direction, ty) ==> covers(
                x,
                direction | if full {
                    type_capabilities(typedefs, ty)
                } else {
                    type_bits(ty)
                },
            ),
    ensures
        full ==> covers(x, function_capabilities(typedefs, function)),
        !full ==> covers(x, function_bits(function)),
{
    let word = |t: (String, Type), direction: u32|
        direction | if full {
            type_capabilities(typedefs, t.1)
        } else {
            type_bits(t.1)
        };
    let params = function.params@.map_values(|t: (String, Type)| word(t, SER));
    assert forall|k: int| 0 <= k < params.len() implies covers(x, #[trigger] params[k]) by {
        assert(signature_holds(function, SER, function.params[k].1));
    }
    lemma_covers_or_all(x, params);
    let results: u32 = match function.result {
        Some(FunctionResult::Anon(t)) => {
            assert(signature_holds(function, DE, t));
            DE | if full {
                type_capabilities(typedefs, t)
            } else {
                type_bits(t)
            }
        },
        Some(FunctionResult::Named(types)) => {
            let parts = types@.map_values(|t: (String, Type)| word(t, DE));
            assert forall|k: int| 0 <= k < parts.len() implies covers(x, #[trigger] parts[k]) by {
                assert(signature_holds(function, DE, types[k].1));
            }
            lemma_covers_or_all(x, parts);
            or_all(parts)
        },
        None => 0,
    };
    lemma_covers_facts(x, or_all(params), results);
    if full {
        assert(function.params@.map_values(
            |t: (String, Type)| SER | type_capabilities(typedefs, t.1),
        ) =~= params);
        if function.result is Some && function.result->0 is Named {
            let types = function.result->0->Named_0;
            assert(types@.map_values(|t: (String, Type)| DE | type_capabilities(typedefs, t.1))
                =~= types@.map_values(|t: (String, Type)| word(t, DE)));
        }
    } else {
        assert(function.params@.map_values(|t: (String, Type)| SER | type_bits(t.1)) =~= params);
        if function.result is Some && function.result->0 is Named {
            let types = function.result->0->Named_0;
            assert(types@.map_values(|t: (String, Type)| DE | type_bits(t.1)) =~= types@.map_values(
                |t: (String, Type)| word(t, DE),
            ));
        }
    }
}

/// An identifier in the signature of a function occurs in a type of the
/// signature.
proof fn lemma_mention_has_type(function: Function, id: nat) -> (found: (u32, Type))
    requires
        function_mentions(function, id),
    ensures
        signature_holds(function, found.0, found.1),
        type_mentions(found.1, id),
{
    if named_types_mention(function.params@, id) {
        let k = choose|k: int|
            0 <= k < function.params.len() && type_mentions((#[trigger] function.params[k]).1, id);
        (SER, function.params[k].1)
    } else if function.result is Some && function.result->0 is Anon {
        (DE, function.result->0->Anon_0)
    } else {
        let types = function.result->0->Named_0;
        let k = choose|k: int| 0 <= k < types.len() && type_mentions((#[trigger] types[k]).1, id);
        (DE, types[k].1)
    }
}

/// What the solver computes is what the functions need one by one: for
/// each parameter that something is written, for each result that something
/// is read, and what the type of each needs with all that it leads to. A
/// type definition that no signature leads to adds nothing.
pub proof fn lemma_capabilities_by_type(typedefs: Seq<TypeDef>, functions: Seq<Function>)
    ensures
        capabilities(typedefs, functions) == or_all(
            functions.map_values(|f: Function| function_capabilities(typedefs, f)),
        ),
{
    let n = typedefs.len();
    let roots = signature_roots(functions);
    let whole = capabilities(typedefs, functions);
    let parts = functions.map_values(|f: Function| function_capabilities(typedefs, f));
    let joined = or_all(parts);
    // Whatever a function needs is in what the solver computes.
    assert forall|i: int| 0 <= i < parts.len() implies covers(whole, #[trigger] parts[i]) by {
        let function = functions[i];
        lemma_capabilities_cover_function(typedefs, functions, i);
        assert forall|direction: u32, ty: Type| #[trigger]
            signature_holds(function, direction, ty) implies covers(
            whole,
            direction | type_capabilities(typedefs, ty),
        ) by {
            lemma_signature_holds(typedefs, function, direction, ty);
            lemma_covers_facts(whole, function_bits(function), direction | type_bits(ty));
            assert forall|id: nat|
                id < n && #[trigger] reachable(typedefs, type_roots(ty), id) implies covers(
                whole,
                kind_bits(typedefs[id as int].kind),
            ) by {
                assert forall|root: nat| type_roots(ty).contains(root) implies roots.contains(
                    root,
                ) by {
                    assert(function_mentions(functions[i], root));
                }
                lemma_reachable_monotone(typedefs, type_roots(ty), roots, id);
                lemma_capabilities_cover_reached(typedefs, functions, id);
            }
            lemma_covers_reached(whole, typedefs, type_roots(ty), n);
            lemma_covers_parts(
                whole,
                direction,
                type_bits(ty),
                reached_bits(typedefs, type_roots(ty), n),
            );
        }
        lemma_signature_covered(whole, typedefs, function, true);
    }
    lemma_covers_or_all(whole, parts);
    // Whatever the solver computes is needed by one of the functions.
    let bits = functions.map_values(|f: Function| function_bits(f));
    assert forall|i: int| 0 <= i < bits.len() implies covers(joined, #[trigger] bits[i]) by {
        let function = functions[i];
        lemma_or_all_covers_each(parts, i);
        assert forall|direction: u32, ty: Type| #[trigger]
            signature_holds(function, direction, ty) implies covers(
            joined,
            direction | type_bits(ty),
        ) by {
            lemma_signature_holds(typedefs, function, direction, ty);
            lemma_covers_facts(
                joined,
                function_capabilities(typedefs, function),
                direction | type_capabilities(typedefs, ty),
            );
            lemma_covers_parts(
                joined,
                direction,
                type_bits(ty),
                reached_bits(typedefs, type_roots(ty), n),
            );
        }
        lemma_signature_covered(joined, typedefs, function, false);
    }
    lemma_covers_or_all(joined, bits);
    assert forall|id: nat| id < n && #[trigger] reachable(typedefs, roots, id) implies covers(
        joined,
        kind_bits(typedefs[id as int].kind),
    ) by {
        let path = choose|path: Seq<nat>| is_path(typedefs, roots, path) && #[trigger] path.last() == id;
        assert(functions_mention(functions, path[0]));
        let i = choose|i: int|
            0 <= i < functions.len() && function_mentions(#[trigger] functions[i], path[0]);
        let function = functions[i];
        let (direction, ty) = lemma_mention_has_type(function, path[0]);
        assert(is_path(typedefs, type_roots(ty), path));
        assert(reachable(typedefs, type_roots(ty), id));
        let own = kind_bits(typedefs[id as int].kind);
        lemma_covers_facts(own, 0, 0);
        lemma_reached_bits_cover(typedefs, type_roots(ty), n, id, own);
        lemma_signature_holds(typedefs, function, direction, ty);
        lemma_or_all_covers_each(parts, i);
        let reached = reached_bits(typedefs, type_roots(ty), n);
        lemma_covers_facts(joined, parts[i], direction | type_capabilities(typedefs, ty));
        lemma_covers_parts(joined, direction, type_bits(ty), reached);
        lemma_covers_facts(joined, reached, own);
    }
    lemma_covers_reached(joined, typedefs, roots, n);
    lemma_covers_facts(joined, functions_bits(functions), reached_bits(typedefs, roots, n));
    lemma_covers_facts(whole, joined, 0);
}

} // verus!
