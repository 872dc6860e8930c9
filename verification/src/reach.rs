//! Which type definitions a set of types leads to: a type mentions the
//! definitions whose identifiers occur in it, a definition mentions those that
//! occur in its body, and a definition is reachable from a set of roots where
//! a chain of mentions leads from a root to it. The arena may hold cycles.

use crate::ast::{
    arena_resolved, functions_resolved, named_types_resolved, Function, FunctionResult,
    NamedTypeList, Type, TypeDef, TypeDefArena, TypeDefKind,
};
use vstd::prelude::*;

verus! {

/// The identifier `id` occurs in the type.
pub open spec fn type_mentions(ty: Type, id: nat) -> bool
    decreases ty,
{
    match ty {
        Type::List(inner) => type_mentions(*inner, id),
        Type::Option(inner) => type_mentions(*inner, id),
        Type::Tuple(tys) => exists|i: int| 0 <= i < tys.len() && type_mentions(#[trigger] tys[i], id),
        Type::Result { ok, err } => {
            ||| ok matches Some(t) && type_mentions(*t, id)
            ||| err matches Some(t) && type_mentions(*t, id)
        },
        Type::Id(other) => other == id,
        _ => false,
    }
}

/// The identifier `id` occurs in a type of the list.
pub open spec fn named_types_mention(types: Seq<(String, Type)>, id: nat) -> bool {
    exists|i: int| 0 <= i < types.len() && type_mentions((#[trigger] types[i]).1, id)
}

/// The identifier `id` occurs in the function's signature.
pub open spec fn function_mentions(function: Function, id: nat) -> bool {
    ||| named_types_mention(function.params@, id)
    ||| function.result matches Some(FunctionResult::Anon(ty)) && type_mentions(ty, id)
    ||| function.result matches Some(FunctionResult::Named(types)) && named_types_mention(
        types@,
        id,
    )
}

/// The identifier `id` occurs in the signature of one of the functions.
pub open spec fn functions_mention(functions: Seq<Function>, id: nat) -> bool {
    exists|i: int| 0 <= i < functions.len() && function_mentions(#[trigger] functions[i], id)
}

/// The identifier `id` occurs in the body of a type definition. The methods
/// of a resource are not part of what travels for it.
pub open spec fn kind_mentions(kind: TypeDefKind, id: nat) -> bool {
    match kind {
        TypeDefKind::Alias(ty) => type_mentions(ty, id),
        TypeDefKind::Record(fields) => exists|i: int|
            0 <= i < fields.len() && type_mentions((#[trigger] fields[i]).ty, id),
        TypeDefKind::Variant(cases) => exists|i: int|
            0 <= i < cases.len() && ((#[trigger] cases[i]).ty matches Some(ty) && type_mentions(
                ty,
                id,
            )),
        TypeDefKind::Union(cases) => exists|i: int|
            0 <= i < cases.len() && type_mentions((#[trigger] cases[i]).ty, id),
        _ => false,
    }
}

/// The definition `from` mentions the definition `to`.
pub open spec fn edge(typedefs: Seq<TypeDef>, from: nat, to: nat) -> bool {
    from < typedefs.len() && kind_mentions(typedefs[from as int].kind, to)
}

/// A chain of mentions that starts at a root.
pub open spec fn is_path(typedefs: Seq<TypeDef>, roots: Set<nat>, path: Seq<nat>) -> bool {
    &&& path.len() > 0
    &&& roots.contains(path[0])
    &&& forall|k: int| 0 <= k < path.len() - 1 ==> edge(typedefs, #[trigger] path[k], path[k + 1])
}

/// A chain of mentions leads from a root to `id`.
pub open spec fn reachable(typedefs: Seq<TypeDef>, roots: Set<nat>, id: nat) -> bool {
    exists|path: Seq<nat>| is_path(typedefs, roots, path) && #[trigger] path.last() == id
}

/// A root is reachable.
pub proof fn lemma_root_reachable(typedefs: Seq<TypeDef>, roots: Set<nat>, id: nat)
    requires
        roots.contains(id),
    ensures
        reachable(typedefs, roots, id),
{
    let path = seq![id];
    assert(is_path(typedefs, roots, path));
    assert(path.last() == id);
}

/// What a reachable definition mentions is reachable.
pub proof fn lemma_step_reachable(typedefs: Seq<TypeDef>, roots: Set<nat>, from: nat, to: nat)
    requires
        reachable(typedefs, roots, from),
        edge(typedefs, from, to),
    ensures
        reachable(typedefs, roots, to),
{
    let path = choose|path: Seq<nat>| is_path(typedefs, roots, path) && #[trigger] path.last() == from;
    let longer = path.push(to);
    assert forall|k: int| 0 <= k < longer.len() - 1 implies edge(
        typedefs,
        #[trigger] longer[k],
        longer[k + 1],
    ) by {
        if k < path.len() - 1 {
            assert(longer[k] == path[k]);
            assert(longer[k + 1] == path[k + 1]);
        } else {
            assert(longer[k] == path.last());
        }
    }
    assert(is_path(typedefs, roots, longer));
    assert(longer.last() == to);
}

proof fn lemma_path_stays_inside(
    typedefs: Seq<TypeDef>,
    roots: Set<nat>,
    inside: Set<nat>,
    path: Seq<nat>,
    k: int,
)
    requires
        is_path(typedefs, roots, path),
        0 <= k < path.len(),
        forall|id: nat| roots.contains(id) ==> inside.contains(id),
        forall|from: nat, to: nat|
            inside.contains(from) && #[trigger] edge(typedefs, from, to) ==> inside.contains(to),
    ensures
        inside.contains(path[k]),
    decreases k,
{
    if k > 0 {
        lemma_path_stays_inside(typedefs, roots, inside, path, k - 1);
        assert(edge(typedefs, path[k - 1], path[k - 1 + 1]));
    }
}

/// A set that holds the roots and, with a definition, all that it mentions,
/// holds every reachable definition.
pub proof fn lemma_reachable_inside(
    typedefs: Seq<TypeDef>,
    roots: Set<nat>,
    inside: Set<nat>,
    id: nat,
)
    requires
        reachable(typedefs, roots, id),
        forall|id: nat| roots.contains(id) ==> inside.contains(id),
        forall|from: nat, to: nat|
            inside.contains(from) && #[trigger] edge(typedefs, from, to) ==> inside.contains(to),
    ensures
        inside.contains(id),
{
    let path = choose|path: Seq<nat>| is_path(typedefs, roots, path) && #[trigger] path.last() == id;
    lemma_path_stays_inside(typedefs, roots, inside, path, path.len() - 1);
}

/// With more roots, no less is reachable.
pub proof fn lemma_reachable_monotone(
    typedefs: Seq<TypeDef>,
    fewer: Set<nat>,
    more: Set<nat>,
    id: nat,
)
    requires
        reachable(typedefs, fewer, id),
        forall|root: nat| fewer.contains(root) ==> more.contains(root),
    ensures
        reachable(typedefs, more, id),
{
    let path = choose|path: Seq<nat>| is_path(typedefs, fewer, path) && #[trigger] path.last() == id;
    assert(is_path(typedefs, more, path));
}

/// A resolved type mentions only identifiers below the bound.
pub proof fn lemma_type_mentions_below(ty: Type, n: nat, id: nat)
    requires
        ty.resolved(n),
        type_mentions(ty, id),
    ensures
        id < n,
    decreases ty,
{
    match ty {
        Type::List(inner) => lemma_type_mentions_below(*inner, n, id),
        Type::Option(inner) => lemma_type_mentions_below(*inner, n, id),
        Type::Tuple(tys) => {
            let i = choose|i: int| 0 <= i < tys.len() && type_mentions(#[trigger] tys[i], id);
            lemma_type_mentions_below(tys[i], n, id);
        },
        Type::Result { ok, err } => {
            if ok matches Some(t) && type_mentions(*t, id) {
                lemma_type_mentions_below(*ok->0, n, id);
            } else {
                lemma_type_mentions_below(*err->0, n, id);
            }
        },
        _ => {},
    }
}

/// A resolved body mentions only identifiers below the bound.
pub proof fn lemma_kind_mentions_below(kind: TypeDefKind, n: nat, id: nat)
    requires
        kind.resolved(n),
        kind_mentions(kind, id),
    ensures
        id < n,
{
    match kind {
        TypeDefKind::Alias(ty) => lemma_type_mentions_below(ty, n, id),
        TypeDefKind::Record(fields) => {
            let i = choose|i: int| 0 <= i < fields.len() && type_mentions((#[trigger] fields[i]).ty, id);
            lemma_type_mentions_below(fields[i].ty, n, id);
        },
        TypeDefKind::Variant(cases) => {
            let i = choose|i: int|
                0 <= i < cases.len() && ((#[trigger] cases[i]).ty matches Some(ty) && type_mentions(ty, id));
            lemma_type_mentions_below(cases[i].ty->0, n, id);
        },
        TypeDefKind::Union(cases) => {
            let i = choose|i: int| 0 <= i < cases.len() && type_mentions((#[trigger] cases[i]).ty, id);
            lemma_type_mentions_below(cases[i].ty, n, id);
        },
        _ => {},
    }
}


/// Resolved signatures mention only identifiers below the bound.
pub proof fn lemma_functions_mention_below(functions: Seq<Function>, n: nat, id: nat)
    requires
        functions_resolved(functions, n),
        functions_mention(functions, id),
    ensures
        id < n,
{
    let i = choose|i: int| 0 <= i < functions.len() && function_mentions(#[trigger] functions[i], id);
    let function = functions[i];
    assert(function.resolved(n));
    if named_types_mention(function.params@, id) {
        let k = choose|k: int|
            0 <= k < function.params.len() && type_mentions((#[trigger] function.params[k]).1, id);
        lemma_type_mentions_below(function.params[k].1, n, id);
    } else if function.result matches Some(FunctionResult::Anon(ty)) && type_mentions(ty, id) {
        lemma_type_mentions_below(function.result->0->Anon_0, n, id);
    } else {
        let types = function.result->0->Named_0;
        let k = choose|k: int| 0 <= k < types.len() && type_mentions((#[trigger] types[k]).1, id);
        lemma_type_mentions_below(types[k].1, n, id);
    }
}

/// How many entries are `false`.
pub open spec fn unseen(seen: Seq<bool>) -> nat
    decreases seen.len(),
{
    if seen.len() == 0 {
        0
    } else {
        unseen(seen.drop_last()) + if seen.last() {
            0nat
        } else {
            1nat
        }
    }
}

proof fn lemma_unseen_after_mark(seen: Seq<bool>, i: int)
    requires
        0 <= i < seen.len(),
        !seen[i],
    ensures
        unseen(seen.update(i, true)) + 1 == unseen(seen),
    decreases seen.len(),
{
    let marked = seen.update(i, true);
    if i == seen.len() - 1 {
        assert(marked.drop_last() == seen.drop_last());
    } else {
        lemma_unseen_after_mark(seen.drop_last(), i);
        assert(marked.drop_last() == seen.drop_last().update(i, true));
    }
}

/// The state of a walk through the arena: which definitions were met, and
/// which of them still wait for their bodies to be looked at.
pub struct Frontier {
    pub seen: Vec<bool>,
    pub pending: Vec<usize>,
}

impl Frontier {
    /// What waits was met, and lies in the arena.
    pub open spec fn wf(self) -> bool {
        forall|k: int|
            0 <= k < self.pending.len() ==> (#[trigger] self.pending[k]) < self.seen.len()
                && self.seen[self.pending[k] as int]
    }

    /// The definition `id` was met.
    pub open spec fn met(self, id: nat) -> bool {
        id < self.seen.len() && self.seen[id as int]
    }

    /// The definitions that were met.
    pub open spec fn met_set(self) -> Set<nat> {
        Set::new(|id: nat| self.met(id))
    }

    /// The definition `id` waits.
    pub open spec fn waits(self, id: nat) -> bool {
        exists|k: int| 0 <= k < self.pending.len() && #[trigger] self.pending[k] == id
    }

    /// What bounds the work that is left.
    pub open spec fn load(self) -> nat {
        unseen(self.seen@) + self.pending.len() as nat
    }

    /// `after` came from `before` by meeting exactly the definitions of
    /// `fresh` in addition, each of which now waits.
    pub open spec fn grew(before: Frontier, after: Frontier, fresh: spec_fn(nat) -> bool) -> bool {
        &&& after.wf()
        &&& after.seen.len() == before.seen.len()
        &&& after.load() == before.load()
        &&& forall|id: nat| #[trigger] after.met(id) <==> before.met(id) || (id < before.seen.len() && fresh(id))
        &&& forall|id: nat| before.waits(id) ==> #[trigger] after.waits(id)
        &&& forall|id: nat| #[trigger] after.met(id) && !before.met(id) ==> after.waits(id)
    }

    /// A walk through an arena of `n` definitions that has met nothing yet.
    pub fn new(n: usize) -> (frontier: Frontier)
        ensures
            frontier.wf(),
            frontier.seen.len() == n,
            frontier.pending.len() == 0,
            forall|id: nat| !frontier.met(id),
    {
        let mut seen: Vec<bool> = Vec::new();
        let mut i: usize = 0;
        while i < n
            invariant
                i <= n,
                seen.len() == i,
                forall|k: int| 0 <= k < i ==> !seen[k],
            decreases n - i,
        {
            seen.push(false);
            i += 1;
        }
        Frontier { seen, pending: Vec::new() }
    }

    /// Meets the definition `id`.
    pub fn mark(&mut self, id: usize)
        requires
            old(self).wf(),
            id < old(self).seen.len(),
        ensures
            Frontier::grew(*old(self), *final(self), |other: nat| other == id),
    {
        if !self.seen[id] {
            proof {
                lemma_unseen_after_mark(self.seen@, id as int);
            }
            self.seen.set(id, true);
            self.pending.push(id);
            assert forall|other: nat| old(self).waits(other) implies #[trigger] self.waits(other) by {
                let k = choose|k: int| 0 <= k < old(self).pending.len() && #[trigger] old(self).pending[k] == other;
                assert(self.pending[k] == other);
            }
            assert(self.pending[self.pending.len() - 1] == id);
        }
    }

    /// Meets every definition that the type mentions.
    pub fn mark_type(&mut self, ty: &Type)
        requires
            old(self).wf(),
            ty.resolved(old(self).seen.len() as nat),
        ensures
            Frontier::grew(*old(self), *final(self), |id: nat| type_mentions(*ty, id)),
        decreases ty,
    {
        match ty {
            Type::List(inner) => self.mark_type(inner),
            Type::Option(inner) => self.mark_type(inner),
            Type::Tuple(tys) => {
                let mut i: usize = 0;
                while i < tys.len()
                    invariant
                        i <= tys.len(),
                        *ty is Tuple,
                        ty->Tuple_0 == *tys,
                        ty.resolved(old(self).seen.len() as nat),
                        Frontier::grew(
                            *old(self),
                            *self,
                            |id: nat| exists|k: int| 0 <= k < i && type_mentions(#[trigger] tys[k], id),
                        ),
                    decreases tys.len() - i,
                {
                    let ghost before = *self;
                    self.mark_type(&tys[i]);
                    i += 1;
                }
            },
            Type::Result { ok, err } => {
                match ok {
                    Some(t) => self.mark_type(t),
                    None => {},
                }
                match err {
                    Some(t) => self.mark_type(t),
                    None => {},
                }
            },
            Type::Id(id) => self.mark(*id),
            _ => {},
        }
    }

    /// Meets every definition that a type of the list mentions.
    pub fn mark_named_types(&mut self, types: &NamedTypeList)
        requires
            old(self).wf(),
            named_types_resolved(types@, old(self).seen.len() as nat),
        ensures
            Frontier::grew(*old(self), *final(self), |id: nat| named_types_mention(types@, id)),
    {
        let mut i: usize = 0;
        while i < types.len()
            invariant
                i <= types.len(),
                named_types_resolved(types@, old(self).seen.len() as nat),
                Frontier::grew(
                    *old(self),
                    *self,
                    |id: nat| exists|k: int| 0 <= k < i && type_mentions((#[trigger] types[k]).1, id),
                ),
            decreases types.len() - i,
        {
            self.mark_type(&types[i].1);
            i += 1;
        }
    }

    /// Meets every definition that the function's signature mentions.
    pub fn mark_function(&mut self, function: &Function)
        requires
            old(self).wf(),
            function.resolved(old(self).seen.len() as nat),
        ensures
            Frontier::grew(*old(self), *final(self), |id: nat| function_mentions(*function, id)),
    {
        self.mark_named_types(&function.params);
        match &function.result {
            Some(FunctionResult::Anon(ty)) => self.mark_type(ty),
            Some(FunctionResult::Named(types)) => self.mark_named_types(types),
            None => {},
        }
    }

    /// Meets every definition that the signature of one of the functions
    /// mentions.
    pub fn mark_functions(&mut self, functions: &[Function])
        requires
            old(self).wf(),
            functions_resolved(functions@, old(self).seen.len() as nat),
        ensures
            Frontier::grew(*old(self), *final(self), |id: nat| functions_mention(functions@, id)),
    {
        let mut i: usize = 0;
        while i < functions.len()
            invariant
                i <= functions.len(),
                functions_resolved(functions@, old(self).seen.len() as nat),
                Frontier::grew(
                    *old(self),
                    *self,
                    |id: nat| exists|k: int| 0 <= k < i && function_mentions(#[trigger] functions[k], id),
                ),
            decreases functions.len() - i,
        {
            self.mark_function(&functions[i]);
            i += 1;
        }
    }

    /// Meets every definition that the body mentions.
    #[verifier::loop_isolation(false)]
    pub fn mark_kind(&mut self, kind: &TypeDefKind)
        requires
            old(self).wf(),
            kind.resolved(old(self).seen.len() as nat),
        ensures
            Frontier::grew(*old(self), *final(self), |id: nat| kind_mentions(*kind, id)),
    {
        match kind {
            TypeDefKind::Alias(ty) => self.mark_type(ty),
            TypeDefKind::Record(fields) => {
                let mut i: usize = 0;
                while i < fields.len()
                    invariant
                        i <= fields.len(),
                        Frontier::grew(
                            *old(self),
                            *self,
                            |id: nat| exists|k: int| 0 <= k < i && type_mentions((#[trigger] fields[k]).ty, id),
                        ),
                    decreases fields.len() - i,
                {
                    self.mark_type(&fields[i].ty);
                    i += 1;
                }
            },
            TypeDefKind::Variant(cases) => {
                let mut i: usize = 0;
                while i < cases.len()
                    invariant
                        i <= cases.len(),
                        Frontier::grew(
                            *old(self),
                            *self,
                            |id: nat| exists|k: int| 0 <= k < i && ((#[trigger] cases[k]).ty matches Some(ty) && type_mentions(ty, id)),
                        ),
                    decreases cases.len() - i,
                {
                    match &cases[i].ty {
                        Some(ty) => self.mark_type(ty),
                        None => {},
                    }
                    i += 1;
                }
            },
            TypeDefKind::Union(cases) => {
                let mut i: usize = 0;
                while i < cases.len()
                    invariant
                        i <= cases.len(),
                        Frontier::grew(
                            *old(self),
                            *self,
                            |id: nat| exists|k: int| 0 <= k < i && type_mentions((#[trigger] cases[k]).ty, id),
                        ),
                    decreases cases.len() - i,
                {
                    self.mark_type(&cases[i].ty);
                    i += 1;
                }
            },
            _ => {},
        }
    }
}

/// Looks at the body of every definition that waits, and of those that are
/// met in doing so, until none waits: what has been met in the end is what
/// can be reached from what had been met at the start.
pub fn explore(typedefs: &TypeDefArena, frontier: Frontier) -> (seen: Vec<bool>)
    requires
        arena_resolved(typedefs@),
        frontier.wf(),
        frontier.seen.len() == typedefs.len(),
        forall|id: nat| frontier.met(id) ==> frontier.waits(id),
    ensures
        seen.len() == typedefs.len(),
        forall|id: nat|
            id < typedefs.len() ==> (seen[id as int] <==> reachable(typedefs@, frontier.met_set(), id)),
{
    let ghost roots = frontier.met_set();
    let ghost mut done: Set<nat> = Set::empty();
    let mut walk = frontier;
    proof {
        assert forall|id: nat| walk.met(id) implies reachable(typedefs@, roots, id) by {
            lemma_root_reachable(typedefs@, roots, id);
        }
    }
    while walk.pending.len() > 0
        invariant
            arena_resolved(typedefs@),
            walk.wf(),
            walk.seen.len() == typedefs.len(),
            forall|id: nat| walk.met(id) ==> reachable(typedefs@, roots, id),
            forall|id: nat| roots.contains(id) ==> walk.met(id),
            forall|id: nat| walk.met(id) ==> done.contains(id) || walk.waits(id),
            forall|from: nat, to: nat|
                done.contains(from) && #[trigger] edge(typedefs@, from, to) ==> walk.met(to),
        decreases walk.load(),
    {
        let ghost popped = walk;
        let id = walk.pending.pop().unwrap();
        let ghost before = walk;
        proof {
            assert(popped.pending[popped.pending.len() - 1] == id);
            assert(popped.met(id as nat));
            assert(reachable(typedefs@, roots, id as nat));
            assert(before.pending@ == popped.pending@.drop_last());
            assert forall|other: nat| popped.waits(other) implies before.waits(other) || other == id by {
                let k = choose|k: int| 0 <= k < popped.pending.len() && #[trigger] popped.pending[k] == other;
                if k < before.pending.len() {
                    assert(before.pending[k] == other);
                }
            }
            assert(typedefs[id as int].kind.resolved(typedefs.len() as nat));
        }
        walk.mark_kind(&typedefs[id].kind);
        proof {
            let kind = typedefs[id as int].kind;
            done = done.insert(id as nat);
            assert forall|other: nat| walk.met(other) implies reachable(typedefs@, roots, other) by {
                if before.met(other) {
                    assert(popped.met(other));
                } else {
                    assert(kind_mentions(kind, other));
                    lemma_step_reachable(typedefs@, roots, id as nat, other);
                }
            }
            assert forall|from: nat, to: nat|
                done.contains(from) && #[trigger] edge(typedefs@, from, to) implies walk.met(to) by {
                if from == id {
                    lemma_kind_mentions_below(kind, typedefs.len() as nat, to);
                }
            }
        }
    }
    proof {
        let inside = walk.met_set();
        assert forall|id: nat| id < typedefs.len() && reachable(typedefs@, roots, id) implies walk.seen[id as int] by {
            assert forall|from: nat, to: nat|
                inside.contains(from) && #[trigger] edge(typedefs@, from, to) implies inside.contains(to) by {
                assert(walk.met(from));
                assert(!walk.waits(from));
            }
            lemma_reachable_inside(typedefs@, roots, inside, id);
        }
        assert forall|id: nat| id < typedefs.len() && walk.seen[id as int] implies reachable(typedefs@, roots, id) by {
            assert(walk.met(id));
        }
    }
    walk.seen
}

} // verus!
