//! How the functions of an interface use each type definition: whether
//! values of it are handed to a function, and whether a function hands them
//! back, in both cases directly or inside other types.

use crate::ast::{
    arena_resolved, functions_resolved, Function, FunctionResult, TypeDef, TypeDefArena, TypeDefId,
};
use crate::reach::{
    explore, lemma_type_mentions_below, named_types_mention, reachable, type_mentions, Frontier,
};
use vstd::prelude::*;

verus! {

/// How a type definition is used.
#[derive(Clone, Copy, Debug, PartialEq, Eq, Structural)]
pub struct TypeInfo {
    /// Values of the type are handed to a function.
    pub param: bool,
    /// Values of the type are handed back by a function.
    pub result: bool,
}

/// How each type definition of an arena is used, by identifier.
pub struct TypeInfos {
    infos: Vec<TypeInfo>,
}

/// The result of the function mentions the identifier `id`.
pub open spec fn result_mentions(function: Function, id: nat) -> bool {
    ||| function.result matches Some(FunctionResult::Anon(ty)) && type_mentions(ty, id)
    ||| function.result matches Some(FunctionResult::Named(types)) && named_types_mention(
        types@,
        id,
    )
}

/// The definitions that the parameters of the functions mention.
pub open spec fn param_roots(functions: Seq<Function>) -> Set<nat> {
    Set::new(
        |id: nat|
            exists|i: int|
                0 <= i < functions.len() && named_types_mention(
                    (#[trigger] functions[i]).params@,
                    id,
                ),
    )
}

/// The definitions that the results of the functions mention.
pub open spec fn result_roots(functions: Seq<Function>) -> Set<nat> {
    Set::new(
        |id: nat| exists|i: int| 0 <= i < functions.len() && result_mentions(#[trigger] functions[i], id),
    )
}

proof fn lemma_named_types_mention_below(types: Seq<(String, crate::ast::Type)>, n: nat, id: nat)
    requires
        crate::ast::named_types_resolved(types, n),
        named_types_mention(types, id),
    ensures
        id < n,
{
    let k = choose|k: int| 0 <= k < types.len() && type_mentions((#[trigger] types[k]).1, id);
    lemma_type_mentions_below(types[k].1, n, id);
}

fn mark_params(frontier: &mut Frontier, functions: &[Function])
    requires
        old(frontier).wf(),
        functions_resolved(functions@, old(frontier).seen.len() as nat),
    ensures
        Frontier::grew(*old(frontier), *final(frontier), |id: nat| param_roots(functions@).contains(id)),
{
    let mut i: usize = 0;
    while i < functions.len()
        invariant
            i <= functions.len(),
            functions_resolved(functions@, old(frontier).seen.len() as nat),
            Frontier::grew(
                *old(frontier),
                *frontier,
                |id: nat|
                    exists|k: int| 0 <= k < i && named_types_mention((#[trigger] functions[k]).params@, id),
            ),
        decreases functions.len() - i,
    {
        assert(functions[i as int].resolved(old(frontier).seen.len() as nat));
        frontier.mark_named_types(&functions[i].params);
        i += 1;
    }
}

fn mark_results(frontier: &mut Frontier, functions: &[Function])
    requires
        old(frontier).wf(),
        functions_resolved(functions@, old(frontier).seen.len() as nat),
    ensures
        Frontier::grew(*old(frontier), *final(frontier), |id: nat| result_roots(functions@).contains(id)),
{
    let mut i: usize = 0;
    while i < functions.len()
        invariant
            i <= functions.len(),
            functions_resolved(functions@, old(frontier).seen.len() as nat),
            Frontier::grew(
                *old(frontier),
                *frontier,
                |id: nat| exists|k: int| 0 <= k < i && result_mentions(#[trigger] functions[k], id),
            ),
        decreases functions.len() - i,
    {
        assert(functions[i as int].resolved(old(frontier).seen.len() as nat));
        match &functions[i].result {
            Some(FunctionResult::Anon(ty)) => frontier.mark_type(ty),
            Some(FunctionResult::Named(types)) => frontier.mark_named_types(types),
            None => {},
        }
        i += 1;
    }
}

/// How the functions use each type definition of the arena: a definition
/// counts as handed to a function where a parameter mentions it or leads to
/// it through the bodies of other definitions, and as handed back where a
/// result does.
pub open spec fn usage(typedefs: Seq<TypeDef>, functions: Seq<Function>) -> Seq<TypeInfo> {
    Seq::new(
        typedefs.len(),
        |id: int|
            TypeInfo {
                param: reachable(typedefs, param_roots(functions), id as nat),
                result: reachable(typedefs, result_roots(functions), id as nat),
            },
    )
}

impl TypeInfos {
    /// How each type definition is used, by identifier.
    pub closed spec fn view(&self) -> Seq<TypeInfo> {
        self.infos@
    }

    /// Tells for each type definition of the arena whether values of it
    /// travel to a function, and whether they travel back: a definition
    /// counts where a parameter, or a result, mentions it or leads to it
    /// through the bodies of other definitions.
    pub fn collect_from_functions(typedefs: &TypeDefArena, functions: &[Function]) -> (infos:
        TypeInfos)
        requires
            arena_resolved(typedefs@),
            functions_resolved(functions@, typedefs.len() as nat),
        ensures
            infos@ == usage(typedefs@, functions@),
    {
        let n = typedefs.len();
        let mut to = Frontier::new(n);
        mark_params(&mut to, functions);
        let mut from = Frontier::new(n);
        mark_results(&mut from, functions);
        proof {
            assert forall|id: nat| param_roots(functions@).contains(id) implies id < n by {
                let i = choose|i: int|
                    0 <= i < functions.len() && named_types_mention(
                        (#[trigger] functions[i]).params@,
                        id,
                    );
                assert(functions[i].resolved(n as nat));
                lemma_named_types_mention_below(functions[i].params@, n as nat, id);
            }
            assert forall|id: nat| result_roots(functions@).contains(id) implies id < n by {
                let i = choose|i: int|
                    0 <= i < functions.len() && result_mentions(#[trigger] functions[i], id);
                let function = functions[i];
                assert(function.resolved(n as nat));
                if function.result matches Some(FunctionResult::Anon(ty)) && type_mentions(ty, id) {
                    lemma_type_mentions_below(function.result->0->Anon_0, n as nat, id);
                } else {
                    lemma_named_types_mention_below(function.result->0->Named_0@, n as nat, id);
                }
            }
            assert(to.met_set() == param_roots(functions@));
            assert(from.met_set() == result_roots(functions@));
        }
        let sent = explore(typedefs, to);
        let received = explore(typedefs, from);
        let mut infos: Vec<TypeInfo> = Vec::new();
        let mut i: usize = 0;
        while i < n
            invariant
                i <= n,
                n == typedefs.len(),
                sent.len() == n,
                received.len() == n,
                infos.len() == i,
                forall|k: int|
                    0 <= k < i ==> (#[trigger] infos[k]) == (TypeInfo {
                        param: sent[k],
                        result: received[k],
                    }),
            decreases n - i,
        {
            infos.push(TypeInfo { param: sent[i], result: received[i] });
            i += 1;
        }
        assert(infos@ =~= usage(typedefs@, functions@));
        TypeInfos { infos }
    }

    /// How many type definitions there are.
    pub fn len(&self) -> (n: usize)
        ensures
            n == self@.len(),
    {
        self.infos.len()
    }

    /// How the type definition `id` is used.
    pub fn get(&self, id: TypeDefId) -> (info: TypeInfo)
        requires
            id < self@.len(),
        ensures
            info == self@[id as int],
    {
        self.infos[id]
    }
}

} // verus!
