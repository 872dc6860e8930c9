//! The rules an interface has to keep beyond its shape: no name is declared
//! twice, no alias leads back to itself, and every flags declaration fits an
//! integer. Each rule is looked at on its own, and what is found is reported
//! together.

use crate::ast::{
    Function, Interface, NamedTypeList, Type, TypeDef, TypeDefArena, TypeDefId, TypeDefKind, MAX_FLAGS,
};
use crate::error::Error;
use crate::text::views;
use crate::util::{distances_to, failures, find_similar, within, IteratorExt, SIMILARITY};
use vstd::prelude::*;

verus! {

/// What looking at one rule in one place gives.
pub enum Finding {
    /// The rule is kept.
    Fine,
    /// A name stands at two places of a list.
    Repeated { ident: Seq<char>, first: nat, second: nat },
    /// Aliases lead back to where they started, past these names.
    Cycle { idents: Seq<Seq<char>> },
    /// A flags declaration has more fields than an integer can back.
    Overflow { count: nat },
}

/// No name stands twice in the list.
pub open spec fn distinct(names: Seq<Seq<char>>) -> bool {
    forall|i: int, j: int| 0 <= i < j < names.len() ==> names[i] != names[j]
}

/// The name at `second` is the first in the list that stands earlier too,
/// at `first`.
pub open spec fn first_repetition(names: Seq<Seq<char>>, first: int, second: int) -> bool {
    &&& 0 <= first < second < names.len()
    &&& names[first] == names[second]
    &&& distinct(names.take(second))
}

/// What holds of a list of names: they are distinct, or one is the first
/// to be repeated.
pub open spec fn names_finding(names: Seq<Seq<char>>) -> Finding {
    if exists|first: int, second: int| first_repetition(names, first, second) {
        let (first, second) = choose|first: int, second: int| first_repetition(names, first, second);
        Finding::Repeated { ident: names[second], first: first as nat, second: second as nat }
    } else {
        Finding::Fine
    }
}

/// There is one first repetition at most.
pub proof fn lemma_first_repetition_unique(names: Seq<Seq<char>>, a: int, b: int, c: int, d: int)
    requires
        first_repetition(names, a, b),
        first_repetition(names, c, d),
    ensures
        a == c,
        b == d,
{
    if b < d {
        assert(names.take(d)[a] == names.take(d)[b]);
    }
    if d < b {
        assert(names.take(b)[c] == names.take(b)[d]);
    }
    if a < c {
        assert(names.take(b)[a] == names.take(b)[c]);
    }
    if c < a {
        assert(names.take(b)[c] == names.take(b)[a]);
    }
}

/// A first repetition is the finding on the list.
pub proof fn lemma_names_finding_repeated(names: Seq<Seq<char>>, first: int, second: int)
    requires
        first_repetition(names, first, second),
    ensures
        names_finding(names) == (Finding::Repeated {
            ident: names[second],
            first: first as nat,
            second: second as nat,
        }),
{
    let (a, b) = choose|a: int, b: int| first_repetition(names, a, b);
    lemma_first_repetition_unique(names, a, b, first, second);
}

/// The finding on a list of names is `Fine` where the names are distinct,
/// and nowhere else.
pub proof fn lemma_names_finding_fine(names: Seq<Seq<char>>)
    ensures
        names_finding(names) is Fine <==> distinct(names),
{
    if distinct(names) {
        if exists|first: int, second: int| first_repetition(names, first, second) {
            let (a, b) = choose|a: int, b: int| first_repetition(names, a, b);
            assert(names[a] == names[b]);
        }
    } else {
        assert(names.take(names.len() as int) == names);
        lemma_repetition_exists(names, names.len() as int);
    }
}

/// Where the first `n` names are not distinct, one of them is the first to
/// be repeated.
proof fn lemma_repetition_exists(names: Seq<Seq<char>>, n: int)
    requires
        0 <= n <= names.len(),
        !distinct(names.take(n)),
    ensures
        exists|first: int, second: int| first_repetition(names, first, second),
    decreases n,
{
    let head = names.take(n);
    let (i, j) = choose|i: int, j: int| 0 <= i < j < head.len() && head[i] != head[j] == false;
    assert(head[i] == names[i] && head[j] == names[j]);
    if distinct(names.take(n - 1)) {
        // The repetition ends at the last of the `n` names.
        if j < n - 1 {
            assert(names.take(n - 1)[i] == names.take(n - 1)[j]);
        }
        assert(first_repetition(names, i, n - 1));
    } else {
        lemma_repetition_exists(names, n - 1);
    }
}

/// The first name of the list that stands earlier too, with the first place
/// at which it stands.
pub fn find_duplicate(names: &Vec<String>) -> (found: Option<(usize, usize)>)
    ensures
        found is None <==> distinct(views(names@)),
        found matches Some((first, second)) ==> first_repetition(
            views(names@),
            first as int,
            second as int,
        ),
{
    let ghost texts = views(names@);
    let mut second: usize = 0;
    while second < names.len()
        invariant
            second <= names.len(),
            texts == views(names@),
            distinct(texts.take(second as int)),
        decreases names.len() - second,
    {
        let mut first: usize = 0;
        while first < second
            invariant
                first <= second < names.len(),
                texts == views(names@),
                distinct(texts.take(second as int)),
                forall|k: int| 0 <= k < first ==> texts[k] != texts[second as int],
            decreases second - first,
        {
            if names[first] == names[second] {
                assert(texts[first as int] == texts[second as int]);
                proof {
                    assert(!distinct(texts)) by {
                        if distinct(texts) {
                            assert(texts[first as int] != texts[second as int]);
                        }
                    }
                }
                return Some((first, second));
            }
            first += 1;
        }
        proof {
            let longer = texts.take(second + 1);
            let shorter = texts.take(second as int);
            assert forall|i: int, j: int| 0 <= i < j < longer.len() implies longer[i] != longer[j] by {
                if j < second {
                    assert(shorter[i] != shorter[j]);
                }
            }
        }
        second += 1;
    }
    assert(texts.take(names.len() as int) == texts);
    None
}

/// The names of the type definitions, in the order of the arena.
pub open spec fn typedef_names(typedefs: Seq<TypeDef>) -> Seq<Seq<char>> {
    Seq::new(typedefs.len(), |i: int| typedefs[i].ident@)
}

/// The names of the functions, in their order.
pub open spec fn function_names(functions: Seq<Function>) -> Seq<Seq<char>> {
    Seq::new(functions.len(), |i: int| functions[i].id@)
}

/// The names of the parameters, in their order.
pub open spec fn param_names(params: Seq<(String, Type)>) -> Seq<Seq<char>> {
    Seq::new(params.len(), |i: int| params[i].0@)
}

/// The error that tells of a finding: there is none for `Fine`.
pub open spec fn tells(error: Error, finding: Finding) -> bool {
    match finding {
        Finding::Fine => false,
        Finding::Repeated { ident, first, second } => error matches Error::AlreadyDefined {
            ident: name,
            first: a,
            second: b,
        } && name@ == ident && a == first && b == second,
        Finding::Cycle { idents } => error matches Error::RecursiveType { idents: names } && views(
            names@,
        ) == idents,
        Finding::Overflow { count } => error matches Error::TooManyFlags { count: c } && c == count,
    }
}

/// The outcome of a step that tells of a finding: success for `Fine`, and
/// the error of the finding for every other.
pub open spec fn step_tells(outcome: Result<(), Error>, finding: Finding) -> bool {
    match outcome {
        Ok(_) => finding is Fine,
        Err(error) => tells(error, finding),
    }
}

/// Looks for a name that is declared twice.
pub fn check_names(names: &Vec<String>) -> (outcome: Result<(), Error>)
    ensures
        step_tells(outcome, names_finding(views(names@))),
{
    let found = find_duplicate(names);
    proof {
        lemma_names_finding_fine(views(names@));
    }
    match found {
        None => Ok(()),
        Some((first, second)) => {
            proof {
                lemma_names_finding_repeated(views(names@), first as int, second as int);
            }
            Err(Error::AlreadyDefined { ident: names[second].clone(), first, second })
        },
    }
}

/// The definition that a definition is another name for: an alias of a
/// type definition of the arena has one.
pub open spec fn alias_of(typedefs: Seq<TypeDef>, id: int) -> Option<int> {
    if 0 <= id < typedefs.len() {
        match typedefs[id].kind {
            TypeDefKind::Alias(Type::Id(target)) => if target < typedefs.len() {
                Some(target as int)
            } else {
                None
            },
            _ => None,
        }
    } else {
        None
    }
}

/// The definition that `steps` aliases lead to from `start`.
pub open spec fn alias_chain(typedefs: Seq<TypeDef>, start: int, steps: nat) -> Option<int>
    decreases steps,
{
    if steps == 0 {
        if 0 <= start < typedefs.len() {
            Some(start)
        } else {
            None
        }
    } else {
        match alias_chain(typedefs, start, (steps - 1) as nat) {
            Some(at) => alias_of(typedefs, at),
            None => None,
        }
    }
}

/// Aliases lead from the definition back to it.
pub open spec fn on_cycle(typedefs: Seq<TypeDef>, id: int) -> bool {
    exists|steps: nat| steps >= 1 && alias_chain(typedefs, id, steps) == Some(id)
}

/// The aliases lead from `start` back to it in `steps` steps, and on the
/// way past later definitions only: `start` is the first definition of a
/// cycle of that many aliases.
pub open spec fn cycle_at(typedefs: Seq<TypeDef>, start: int, steps: nat) -> bool {
    &&& 1 <= steps
    &&& alias_chain(typedefs, start, steps) == Some(start)
    &&& forall|k: nat|
        0 < k < steps ==> (#[trigger] alias_chain(typedefs, start, k) matches Some(at) && at > start)
}

/// The names of the definitions on the way: `steps` of them, from `start`.
pub open spec fn chain_names(typedefs: Seq<TypeDef>, start: int, steps: nat) -> Seq<Seq<char>> {
    Seq::new(
        steps,
        |k: int|
            match alias_chain(typedefs, start, k as nat) {
                Some(at) => if 0 <= at < typedefs.len() {
                    typedefs[at].ident@
                } else {
                    Seq::empty()
                },
                None => Seq::empty(),
            },
    )
}

/// What holds of one definition: a flags declaration may have too many
/// fields, and an alias may be the first definition of a cycle.
pub open spec fn kind_finding(typedefs: Seq<TypeDef>, id: int) -> Finding {
    match typedefs[id].kind {
        TypeDefKind::Flags(fields) => if fields.len() > MAX_FLAGS {
            Finding::Overflow { count: fields.len() as nat }
        } else {
            Finding::Fine
        },
        TypeDefKind::Alias(_) => if exists|steps: nat| cycle_at(typedefs, id, steps) {
            Finding::Cycle {
                idents: chain_names(typedefs, id, choose|steps: nat| cycle_at(typedefs, id, steps)),
            }
        } else {
            Finding::Fine
        },
        _ => Finding::Fine,
    }
}

/// A definition is the first of one cycle at most.
pub proof fn lemma_cycle_unique(typedefs: Seq<TypeDef>, start: int, a: nat, b: nat)
    requires
        cycle_at(typedefs, start, a),
        cycle_at(typedefs, start, b),
    ensures
        a == b,
{
    if a < b {
        assert(alias_chain(typedefs, start, a) matches Some(at) && at > start);
    }
    if b < a {
        assert(alias_chain(typedefs, start, b) matches Some(at) && at > start);
    }
}

/// Once the aliases have ended, they lead nowhere.
proof fn lemma_chain_ends(typedefs: Seq<TypeDef>, start: int, at: nat, later: nat)
    requires
        alias_chain(typedefs, start, at) is None,
        at <= later,
    ensures
        alias_chain(typedefs, start, later) is None,
    decreases later,
{
    if at < later {
        lemma_chain_ends(typedefs, start, at, (later - 1) as nat);
    }
}

/// Aliases lead to definitions of the arena.
proof fn lemma_chain_inside(typedefs: Seq<TypeDef>, start: int, steps: nat)
    ensures
        alias_chain(typedefs, start, steps) matches Some(at) ==> 0 <= at < typedefs.len(),
{
    if steps > 0 {
        match alias_chain(typedefs, start, (steps - 1) as nat) {
            Some(before) => {},
            None => {},
        }
    }
}

/// A way of `a + b` aliases is a way of `a` aliases and then one of `b`.
proof fn lemma_chain_add(typedefs: Seq<TypeDef>, start: int, a: nat, b: nat)
    ensures
        alias_chain(typedefs, start, a + b) == (match alias_chain(typedefs, start, a) {
            Some(at) => alias_chain(typedefs, at, b),
            None => None,
        }),
    decreases b,
{
    if b == 0 {
        lemma_chain_inside(typedefs, start, a);
    } else {
        lemma_chain_add(typedefs, start, a, (b - 1) as nat);
        assert(a + b - 1 == a + (b - 1) as nat);
    }
}

/// Among more numbers than the range they are taken from holds, one
/// occurs twice.
proof fn lemma_one_occurs_twice(values: Seq<int>, lo: int, hi: int)
    requires
        forall|k: int| 0 <= k < values.len() ==> lo <= #[trigger] values[k] < hi,
        values.len() > hi - lo,
        lo <= hi,
    ensures
        exists|a: int, b: int| 0 <= a < b < values.len() && values[a] == values[b],
{
    if values.no_duplicates() {
        values.unique_seq_to_set();
        vstd::set_lib::lemma_int_range(lo, hi);
        assert(values.to_set().subset_of(vstd::set_lib::set_int_range(lo, hi))) by {
            assert forall|v: int| values.to_set().contains(v) implies vstd::set_lib::set_int_range(
                lo,
                hi,
            ).contains(v) by {
                let k = choose|k: int| 0 <= k < values.len() && values[k] == v;
                assert(lo <= values[k] < hi);
            }
        }
        vstd::set_lib::lemma_len_subset(values.to_set(), vstd::set_lib::set_int_range(lo, hi));
    } else {
        let (i, j) = choose|i: int, j: int|
            0 <= i < values.len() && 0 <= j < values.len() && i != j && values[i] == values[j];
        if i < j {
            assert(0 <= i < j < values.len() && values[i] == values[j]);
        } else {
            assert(0 <= j < i < values.len() && values[j] == values[i]);
        }
    }
}

/// Aliases that have passed as many later definitions as the arena holds
/// definitions never lead back to where they started.
proof fn lemma_long_way_no_cycle(typedefs: Seq<TypeDef>, start: int)
    requires
        0 <= start < typedefs.len(),
        forall|k: nat|
            0 < k <= typedefs.len() ==> (#[trigger] alias_chain(typedefs, start, k) matches Some(at)
                && at > start),
    ensures
        forall|steps: nat| !cycle_at(typedefs, start, steps),
{
    let n = typedefs.len();
    let values = Seq::new(
        n,
        |k: int|
            match alias_chain(typedefs, start, (k + 1) as nat) {
                Some(at) => at,
                None => 0,
            },
    );
    assert forall|k: int| 0 <= k < values.len() implies start + 1 <= #[trigger] values[k] < n by {
        assert(alias_chain(typedefs, start, (k + 1) as nat) matches Some(at) && at > start);
        lemma_chain_inside(typedefs, start, (k + 1) as nat);
    }
    lemma_one_occurs_twice(values, start + 1, n as int);
    let (a, b) = choose|a: int, b: int| 0 <= a < b < values.len() && values[a] == values[b];
    let first = (a + 1) as nat;
    let second = (b + 1) as nat;
    assert(alias_chain(typedefs, start, first) matches Some(at) && at > start);
    assert(alias_chain(typedefs, start, second) matches Some(at) && at > start);
    assert(alias_chain(typedefs, start, first) == alias_chain(typedefs, start, second));
    assert forall|steps: nat| !cycle_at(typedefs, start, steps) by {
        if cycle_at(typedefs, start, steps) {
            if steps <= n {
                assert(alias_chain(typedefs, start, steps) matches Some(at) && at > start);
            } else {
                // What lies behind the second of the two lies behind the
                // first as well, and earlier.
                let rest = (steps - second) as nat;
                lemma_chain_add(typedefs, start, first, rest);
                lemma_chain_add(typedefs, start, second, rest);
                assert(second + rest == steps);
                assert(alias_chain(typedefs, start, first + rest) == Some(start));
                assert(0 < first + rest < steps);
                assert(alias_chain(typedefs, start, first + rest) matches Some(at) && at > start);
            }
        }
    }
}

/// On a way of aliases that leads somewhere, one definition is the first
/// of the arena.
proof fn lemma_first_on_way(typedefs: Seq<TypeDef>, start: int, steps: nat) -> (least: nat)
    requires
        steps >= 1,
        alias_chain(typedefs, start, steps) is Some,
    ensures
        least < steps,
        alias_chain(typedefs, start, least) is Some,
        forall|k: nat|
            k < steps ==> (#[trigger] alias_chain(typedefs, start, k) matches Some(at) && at
                >= alias_chain(typedefs, start, least)->Some_0),
    decreases steps,
{
    let here = (steps - 1) as nat;
    assert(alias_chain(typedefs, start, here) is Some);
    if steps == 1 {
        0
    } else {
        let before = lemma_first_on_way(typedefs, start, here);
        if alias_chain(typedefs, start, here)->Some_0 < alias_chain(typedefs, start, before)->Some_0 {
            here
        } else {
            before
        }
    }
}

/// Aliases that lead back to a definition lead back to it a first time.
proof fn lemma_first_return(typedefs: Seq<TypeDef>, start: int, steps: nat) -> (first: nat)
    requires
        steps >= 1,
        alias_chain(typedefs, start, steps) == Some(start),
    ensures
        1 <= first <= steps,
        alias_chain(typedefs, start, first) == Some(start),
        forall|k: nat| 0 < k < first ==> #[trigger] alias_chain(typedefs, start, k) != Some(start),
    decreases steps,
{
    if exists|k: nat| 0 < k < steps && alias_chain(typedefs, start, k) == Some(start) {
        let k = choose|k: nat| 0 < k < steps && alias_chain(typedefs, start, k) == Some(start);
        lemma_first_return(typedefs, start, k)
    } else {
        steps
    }
}

/// Every cycle of aliases has a first definition: where aliases lead from a
/// definition back to it, they lead from one definition back to it past
/// later definitions only.
pub proof fn lemma_cycle_has_first(typedefs: Seq<TypeDef>, id: int) -> (found: (int, nat))
    requires
        on_cycle(typedefs, id),
    ensures
        0 <= found.0 < typedefs.len(),
        cycle_at(typedefs, found.0, found.1),
{
    let steps = choose|steps: nat| steps >= 1 && alias_chain(typedefs, id, steps) == Some(id);
    let least = lemma_first_on_way(typedefs, id, steps);
    let first = alias_chain(typedefs, id, least)->Some_0;
    lemma_chain_inside(typedefs, id, least);
    // The way from the first definition stays on the way from `id`.
    assert forall|k: nat| k <= steps implies (#[trigger] alias_chain(typedefs, first, k) matches Some(
        at,
    ) && at >= first && alias_chain(typedefs, first, k) == alias_chain(
        typedefs,
        id,
        if least + k < steps {
            least + k
        } else {
            (least + k - steps) as nat
        },
    )) by {
        lemma_chain_add(typedefs, id, least, k);
        if least + k < steps {
            assert(alias_chain(typedefs, id, least + k) matches Some(at) && at >= first);
        } else {
            let over = (least + k - steps) as nat;
            lemma_chain_add(typedefs, id, steps, over);
            assert(steps + over == least + k);
            assert(alias_chain(typedefs, id, over) matches Some(at) && at >= first);
        }
    }
    assert(alias_chain(typedefs, first, steps) == Some(first));
    let back = lemma_first_return(typedefs, first, steps);
    assert forall|k: nat| 0 < k < back implies (#[trigger] alias_chain(typedefs, first, k) matches Some(
        at,
    ) && at > first) by {
        assert(alias_chain(typedefs, first, k) matches Some(at) && at >= first);
        assert(alias_chain(typedefs, first, k) != Some(first));
    }
    (first, back)
}

/// No alias leads back to itself where no definition is the first of a
/// cycle, and nowhere else.
pub proof fn lemma_no_cycle(typedefs: Seq<TypeDef>)
    ensures
        (forall|id: int| 0 <= id < typedefs.len() ==> !#[trigger] on_cycle(typedefs, id)) <==> (forall|
            id: int,
            steps: nat,
        |
            0 <= id < typedefs.len() ==> !#[trigger] cycle_at(typedefs, id, steps)),
{
    if exists|id: int| 0 <= id < typedefs.len() && on_cycle(typedefs, id) {
        let id = choose|id: int| 0 <= id < typedefs.len() && on_cycle(typedefs, id);
        let found = lemma_cycle_has_first(typedefs, id);
        assert(cycle_at(typedefs, found.0, found.1));
    }
    if exists|id: int, steps: nat| 0 <= id < typedefs.len() && cycle_at(typedefs, id, steps) {
        let (id, steps) = choose|id: int, steps: nat|
            0 <= id < typedefs.len() && cycle_at(typedefs, id, steps);
        assert(on_cycle(typedefs, id));
    }
}

/// The definition that a definition is another name for.
fn alias_target(typedefs: &TypeDefArena, id: usize) -> (target: Option<usize>)
    requires
        id < typedefs.len(),
    ensures
        alias_of(typedefs@, id as int) == (match target {
            Some(t) => Some(t as int),
            None => None::<int>,
        }),
{
    match &typedefs[id].kind {
        TypeDefKind::Alias(ty) => match ty {
            Type::Id(target) => if *target < typedefs.len() {
                Some(*target)
            } else {
                None
            },
            _ => None,
        },
        _ => None,
    }
}

/// Follows the aliases from a definition: where they lead back to it past
/// later definitions only, the names on the way are returned.
pub fn find_cycle(typedefs: &TypeDefArena, start: usize) -> (found: Option<Vec<String>>)
    requires
        start < typedefs.len(),
    ensures
        found is None <==> forall|steps: nat| !cycle_at(typedefs@, start as int, steps),
        found matches Some(idents) ==> exists|steps: nat|
            cycle_at(typedefs@, start as int, steps) && views(idents@) == chain_names(
                typedefs@,
                start as int,
                steps,
            ),
{
    let n = typedefs.len();
    let mut idents: Vec<String> = Vec::new();
    idents.push(typedefs[start].ident.clone());
    let mut at: usize = start;
    let mut steps: usize = 0;
    assert(views(idents@) =~= chain_names(typedefs@, start as int, 1));
    while steps < n
        invariant
            n == typedefs.len(),
            start < n,
            at < n,
            steps <= n,
            alias_chain(typedefs@, start as int, steps as nat) == Some(at as int),
            forall|k: nat|
                0 < k <= steps ==> (#[trigger] alias_chain(typedefs@, start as int, k) matches Some(a)
                    && a > start),
            views(idents@) == chain_names(typedefs@, start as int, (steps + 1) as nat),
        decreases n - steps,
    {
        let target = alias_target(typedefs, at);
        assert(alias_chain(typedefs@, start as int, (steps + 1) as nat) == alias_of(
            typedefs@,
            at as int,
        ));
        match target {
            None => {
                assert forall|s: nat| !cycle_at(typedefs@, start as int, s) by {
                    if cycle_at(typedefs@, start as int, s) {
                        if s <= steps {
                            assert(alias_chain(typedefs@, start as int, s) matches Some(a) && a > start);
                        } else {
                            lemma_chain_ends(typedefs@, start as int, (steps + 1) as nat, s);
                        }
                    }
                }
                return None;
            },
            Some(next) => {
                if next == start {
                    assert(cycle_at(typedefs@, start as int, (steps + 1) as nat));
                    return Some(idents);
                }
                if next < start {
                    assert forall|s: nat| !cycle_at(typedefs@, start as int, s) by {
                        if cycle_at(typedefs@, start as int, s) {
                            if s <= steps {
                                assert(alias_chain(typedefs@, start as int, s) matches Some(a) && a
                                    > start);
                            } else if s > steps + 1 {
                                assert(alias_chain(typedefs@, start as int, (steps + 1) as nat)
                                    matches Some(a) && a > start);
                            }
                        }
                    }
                    return None;
                }
                let ghost before = views(idents@);
                idents.push(typedefs[next].ident.clone());
                at = next;
                steps += 1;
                assert(views(idents@) =~= chain_names(typedefs@, start as int, (steps + 1) as nat)) by {
                    assert(views(idents@) =~= before.push(typedefs@[next as int].ident@));
                }
            },
        }
    }
    proof {
        lemma_long_way_no_cycle(typedefs@, start as int);
    }
    None
}

/// Looks at one type definition.
pub fn check_kind(typedefs: &TypeDefArena, id: usize) -> (outcome: Result<(), Error>)
    requires
        id < typedefs.len(),
    ensures
        step_tells(outcome, kind_finding(typedefs@, id as int)),
{
    match &typedefs[id].kind {
        TypeDefKind::Flags(fields) => {
            if fields.len() > MAX_FLAGS {
                Err(Error::TooManyFlags { count: fields.len() })
            } else {
                Ok(())
            }
        },
        TypeDefKind::Alias(_) => {
            match find_cycle(typedefs, id) {
                None => Ok(()),
                Some(idents) => {
                    proof {
                        let steps = choose|steps: nat|
                            cycle_at(typedefs@, id as int, steps) && views(idents@) == chain_names(
                                typedefs@,
                                id as int,
                                steps,
                            );
                        let chosen = choose|steps: nat| cycle_at(typedefs@, id as int, steps);
                        lemma_cycle_unique(typedefs@, id as int, steps, chosen);
                    }
                    Err(Error::RecursiveType { idents })
                },
            }
        },
        _ => Ok(()),
    }
}

/// What looking at each rule in each place of an interface gives: at the
/// names of the type definitions and at the names of the functions, then at
/// each type definition, then at the parameters of each function.
pub open spec fn findings(interface: Interface) -> Seq<Finding> {
    seq![
        names_finding(typedef_names(interface.typedefs@)),
        names_finding(function_names(interface.functions@)),
    ] + Seq::new(interface.typedefs.len() as nat, |id: int| kind_finding(interface.typedefs@, id))
        + Seq::new(
        interface.functions.len() as nat,
        |i: int| names_finding(param_names(interface.functions[i].params@)),
    )
}

/// The findings that there is something to report of.
pub open spec fn reported(findings: Seq<Finding>) -> Seq<Finding> {
    findings.filter(|finding: Finding| !(finding is Fine))
}

/// The interface keeps the rules: the type definitions have distinct names,
/// and so have the functions, and the parameters of each function; a flags
/// declaration has no more fields than an integer can back; and no alias
/// leads back to itself.
pub open spec fn well_formed(interface: Interface) -> bool {
    &&& distinct(typedef_names(interface.typedefs@))
    &&& distinct(function_names(interface.functions@))
    &&& forall|i: int|
        0 <= i < interface.functions.len() ==> distinct(
            param_names((#[trigger] interface.functions[i]).params@),
        )
    &&& forall|id: int|
        0 <= id < interface.typedefs.len() ==> ((#[trigger] interface.typedefs[id]).kind matches TypeDefKind::Flags(
            fields,
        ) ==> fields.len() <= MAX_FLAGS)
    &&& forall|id: int|
        0 <= id < interface.typedefs.len() ==> !#[trigger] on_cycle(interface.typedefs@, id)
}

/// The finding on a definition is `Fine` where its flags fit an integer and
/// it is not the first definition of a cycle of aliases, and nowhere else.
pub proof fn lemma_kind_finding_fine(typedefs: Seq<TypeDef>, id: int)
    requires
        0 <= id < typedefs.len(),
    ensures
        kind_finding(typedefs, id) is Fine <==> {
            &&& typedefs[id].kind matches TypeDefKind::Flags(fields) ==> fields.len() <= MAX_FLAGS
            &&& forall|steps: nat| !cycle_at(typedefs, id, steps)
        },
{
    if !(typedefs[id].kind is Alias) {
        assert(alias_chain(typedefs, id, 0) == Some(id));
        assert(alias_chain(typedefs, id, 1) is None);
        assert forall|steps: nat| !cycle_at(typedefs, id, steps) by {
            if cycle_at(typedefs, id, steps) {
                lemma_chain_ends(typedefs, id, 1, steps);
            }
        }
    }
}

/// Nothing is reported where every finding is `Fine`, and nowhere else.
pub proof fn lemma_reported_none(findings: Seq<Finding>)
    ensures
        reported(findings).len() == 0 <==> forall|k: int|
            0 <= k < findings.len() ==> #[trigger] findings[k] is Fine,
    decreases findings.len(),
{
    reveal(Seq::filter);
    if findings.len() > 0 {
        let head = findings.drop_last();
        lemma_reported_none(head);
        if forall|k: int| 0 <= k < findings.len() ==> #[trigger] findings[k] is Fine {
            assert forall|k: int| 0 <= k < head.len() implies #[trigger] head[k] is Fine by {
                assert(head[k] == findings[k]);
            }
            assert(findings.last() is Fine);
        }
        if reported(findings).len() == 0 {
            assert forall|k: int| 0 <= k < findings.len() implies #[trigger] findings[k] is Fine by {
                if k < head.len() {
                    assert(head[k] == findings[k]);
                }
            }
        }
    }
}

/// An interface keeps the rules where nothing is to be reported of it, and
/// nowhere else.
pub proof fn lemma_well_formed(interface: Interface)
    ensures
        well_formed(interface) <==> reported(findings(interface)).len() == 0,
{
    let all = findings(interface);
    let n = interface.typedefs.len() as int;
    let m = interface.functions.len() as int;
    lemma_reported_none(all);
    lemma_no_cycle(interface.typedefs@);
    lemma_names_finding_fine(typedef_names(interface.typedefs@));
    lemma_names_finding_fine(function_names(interface.functions@));
    assert(all.len() == 2 + n + m);
    assert(all[0] == names_finding(typedef_names(interface.typedefs@)));
    assert(all[1] == names_finding(function_names(interface.functions@)));
    assert forall|id: int| 0 <= id < n implies all[2 + id] == kind_finding(interface.typedefs@, id) by {}
    assert forall|i: int| 0 <= i < m implies all[2 + n + i] == names_finding(
        param_names(interface.functions[i].params@),
    ) by {}
    if well_formed(interface) {
        assert forall|k: int| 0 <= k < all.len() implies #[trigger] all[k] is Fine by {
            if 2 <= k < 2 + n {
                lemma_kind_finding_fine(interface.typedefs@, k - 2);
                assert(interface.typedefs[k - 2].kind is Flags ==> interface.typedefs[k
                    - 2].kind->Flags_0.len() <= MAX_FLAGS);
            } else if 2 + n <= k {
                lemma_names_finding_fine(param_names(interface.functions[k - 2 - n].params@));
            }
        }
    }
    if forall|k: int| 0 <= k < all.len() ==> #[trigger] all[k] is Fine {
        assert(all[0] is Fine);
        assert(all[1] is Fine);
        assert forall|i: int| 0 <= i < m implies distinct(
            param_names((#[trigger] interface.functions[i]).params@),
        ) by {
            assert(all[2 + n + i] is Fine);
            lemma_names_finding_fine(param_names(interface.functions[i].params@));
        }
        assert forall|id: int| 0 <= id < n implies ((#[trigger] interface.typedefs[id]).kind matches TypeDefKind::Flags(
            fields,
        ) ==> fields.len() <= MAX_FLAGS) by {
            assert(all[2 + id] is Fine);
            lemma_kind_finding_fine(interface.typedefs@, id);
        }
        assert forall|id: int, steps: nat| 0 <= id < n implies !#[trigger] cycle_at(
            interface.typedefs@,
            id,
            steps,
        ) by {
            assert(all[2 + id] is Fine);
            lemma_kind_finding_fine(interface.typedefs@, id);
        }
    }
}

/// Two type definitions of one name are found: the interface does not keep
/// the rules, and the first name that is repeated is among what is reported.
pub proof fn lemma_repeated_typedef_reported(interface: Interface, i: int, j: int)
    requires
        0 <= i < j < interface.typedefs.len(),
        interface.typedefs[i].ident@ == interface.typedefs[j].ident@,
    ensures
        !well_formed(interface),
        names_finding(typedef_names(interface.typedefs@)) is Repeated,
        reported(findings(interface)).contains(names_finding(typedef_names(interface.typedefs@))),
{
    let names = typedef_names(interface.typedefs@);
    assert(names[i] == names[j]);
    lemma_names_finding_fine(names);
    assert(findings(interface)[0] == names_finding(names));
    findings(interface).lemma_filter_contains(|finding: Finding| !(finding is Fine), 0);
}

/// Two functions of one name are found: the interface does not keep the
/// rules, and the first name that is repeated is among what is reported.
pub proof fn lemma_repeated_function_reported(interface: Interface, i: int, j: int)
    requires
        0 <= i < j < interface.functions.len(),
        interface.functions[i].id@ == interface.functions[j].id@,
    ensures
        !well_formed(interface),
        names_finding(function_names(interface.functions@)) is Repeated,
        reported(findings(interface)).contains(names_finding(function_names(interface.functions@))),
{
    let names = function_names(interface.functions@);
    assert(names[i] == names[j]);
    lemma_names_finding_fine(names);
    assert(findings(interface)[1] == names_finding(names));
    findings(interface).lemma_filter_contains(|finding: Finding| !(finding is Fine), 1);
}

/// A flags declaration with more fields than an integer can back is found:
/// the interface does not keep the rules, and the number of the fields is
/// among what is reported.
pub proof fn lemma_overflow_reported(interface: Interface, id: int)
    requires
        0 <= id < interface.typedefs.len(),
        interface.typedefs[id].kind is Flags,
        interface.typedefs[id].kind->Flags_0.len() > MAX_FLAGS,
    ensures
        !well_formed(interface),
        reported(findings(interface)).contains(
            Finding::Overflow { count: interface.typedefs[id].kind->Flags_0.len() as nat },
        ),
{
    assert(findings(interface)[2 + id] == kind_finding(interface.typedefs@, id));
    findings(interface).lemma_filter_contains(|finding: Finding| !(finding is Fine), 2 + id);
}

/// The errors of the steps tell of the findings that there is something to
/// report of, one by one.
proof fn lemma_failures_tell(steps: Seq<Result<(), Error>>, findings: Seq<Finding>)
    requires
        steps.len() == findings.len(),
        forall|k: int| 0 <= k < steps.len() ==> step_tells(#[trigger] steps[k], findings[k]),
    ensures
        failures(steps).len() == reported(findings).len(),
        forall|k: int|
            0 <= k < failures(steps).len() ==> tells(
                #[trigger] failures(steps)[k],
                reported(findings)[k],
            ),
    decreases steps.len(),
{
    reveal(Seq::filter);
    if steps.len() > 0 {
        assert(step_tells(steps.last(), findings.last()));
        assert forall|k: int| 0 <= k < steps.drop_last().len() implies step_tells(
            #[trigger] steps.drop_last()[k],
            findings.drop_last()[k],
        ) by {
            assert(step_tells(steps[k], findings[k]));
        }
        lemma_failures_tell(steps.drop_last(), findings.drop_last());
    }
}

/// The names of the type definitions.
fn typedef_idents(typedefs: &TypeDefArena) -> (names: Vec<String>)
    ensures
        views(names@) == typedef_names(typedefs@),
{
    let mut names: Vec<String> = Vec::new();
    let mut i: usize = 0;
    while i < typedefs.len()
        invariant
            i <= typedefs.len(),
            names.len() == i,
            forall|k: int| 0 <= k < i ==> (#[trigger] names[k])@ == typedefs[k].ident@,
        decreases typedefs.len() - i,
    {
        names.push(typedefs[i].ident.clone());
        i += 1;
    }
    assert(views(names@) =~= typedef_names(typedefs@));
    names
}

/// The names of the functions.
fn function_idents(functions: &Vec<Function>) -> (names: Vec<String>)
    ensures
        views(names@) == function_names(functions@),
{
    let mut names: Vec<String> = Vec::new();
    let mut i: usize = 0;
    while i < functions.len()
        invariant
            i <= functions.len(),
            names.len() == i,
            forall|k: int| 0 <= k < i ==> (#[trigger] names[k])@ == functions[k].id@,
        decreases functions.len() - i,
    {
        names.push(functions[i].id.clone());
        i += 1;
    }
    assert(views(names@) =~= function_names(functions@));
    names
}

/// The names of the parameters.
fn param_idents(params: &NamedTypeList) -> (names: Vec<String>)
    ensures
        views(names@) == param_names(params@),
{
    let mut names: Vec<String> = Vec::new();
    let mut i: usize = 0;
    while i < params.len()
        invariant
            i <= params.len(),
            names.len() == i,
            forall|k: int| 0 <= k < i ==> (#[trigger] names[k])@ == params[k].0@,
        decreases params.len() - i,
    {
        names.push(params[i].0.clone());
        i += 1;
    }
    assert(views(names@) =~= param_names(params@));
    names
}

/// Resolves a name against the type definitions of an interface: the
/// first definition of that name is what the name stands for. A name that
/// nothing declares is reported with the declared names that are close to
/// it, in the order of their declaration.
pub fn resolve(typedefs: &TypeDefArena, ident: &str) -> (outcome: Result<TypeDefId, Error>)
    ensures
        match outcome {
            Ok(id) => id < typedefs.len() && typedefs[id as int].ident@ == ident@ && forall|k: int|
                0 <= k < id ==> (#[trigger] typedefs[k]).ident@ != ident@,
            Err(error) => {
                &&& forall|k: int|
                    0 <= k < typedefs.len() ==> (#[trigger] typedefs[k]).ident@ != ident@
                &&& error matches Error::NotDefined { ident: name, candidates } && name@ == ident@
                    && views(candidates@) == within(
                    typedef_names(typedefs@),
                    distances_to(typedef_names(typedefs@), ident@),
                    SIMILARITY as nat,
                )
            },
        },
{
    let wanted = String::from_str(ident);
    let mut id: usize = 0;
    while id < typedefs.len()
        invariant
            id <= typedefs.len(),
            wanted@ == ident@,
            forall|k: int| 0 <= k < id ==> (#[trigger] typedefs[k]).ident@ != ident@,
        decreases typedefs.len() - id,
    {
        if typedefs[id].ident == wanted {
            return Ok(id);
        }
        id += 1;
    }
    let names = typedef_idents(typedefs);
    let candidates = find_similar(&names, ident);
    Err(Error::NotDefined { ident: wanted, candidates })
}

/// Looks at every rule in every place of an interface. The interface is
/// accepted where it keeps the rules. Else what was found is reported as one
/// error that holds an error for each finding, in the order in which the
/// places are looked at: a name that is declared twice, with the places of
/// both declarations; the names on a cycle of aliases, reported at the first
/// definition of the cycle; the number of fields of a flags declaration that
/// has too many.
pub fn validate(interface: &Interface) -> (outcome: Result<(), Error>)
    ensures
        outcome is Ok <==> well_formed(*interface),
        outcome matches Err(error) ==> error matches Error::Multi { errors } && errors.len()
            == reported(findings(*interface)).len() && forall|k: int|
            0 <= k < errors.len() ==> tells(#[trigger] errors[k], reported(findings(*interface))[k]),
{
    let ghost all = findings(*interface);
    let n = interface.typedefs.len();
    let m = interface.functions.len();
    let mut steps: Vec<Result<(), Error>> = Vec::new();
    steps.push(check_names(&typedef_idents(&interface.typedefs)));
    steps.push(check_names(&function_idents(&interface.functions)));
    let mut id: usize = 0;
    while id < n
        invariant
            id <= n,
            n == interface.typedefs.len(),
            m == interface.functions.len(),
            all == findings(*interface),
            steps.len() == 2 + id,
            forall|k: int| 0 <= k < steps.len() ==> step_tells(#[trigger] steps[k], all[k]),
        decreases n - id,
    {
        steps.push(check_kind(&interface.typedefs, id));
        assert(all[2 + id] == kind_finding(interface.typedefs@, id as int));
        id += 1;
    }
    let mut i: usize = 0;
    while i < m
        invariant
            i <= m,
            n == interface.typedefs.len(),
            m == interface.functions.len(),
            all == findings(*interface),
            steps.len() == 2 + n + i,
            forall|k: int| 0 <= k < steps.len() ==> step_tells(#[trigger] steps[k], all[k]),
        decreases m - i,
    {
        steps.push(check_names(&param_idents(&interface.functions[i].params)));
        assert(all[2 + n + i] == names_finding(param_names(interface.functions[i as int].params@)));
        i += 1;
    }
    proof {
        lemma_failures_tell(steps@, all);
        lemma_well_formed(*interface);
    }
    match steps.transponse_result() {
        Ok(_) => Ok(()),
        Err(error) => Err(error),
    }
}

} // verus!
