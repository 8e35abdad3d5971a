//! The laws of the composition operators and of the dependency container,
//! stated over the relations that the operators' contracts speak of.
use crate::cont::{declined, Rel};
use crate::container::{all_present, first_missing, lookup, DependencyMap, ResolutionFailure, TypeKey};
use crate::di::di_sem;
use crate::handler::endpoint::endpoint_sem;
use crate::handler::filter::{filter_sem, filter_step};
use crate::handler::engine::{branch_cont, branch_sem, chain_cont, chain_sem, entry_sem, Handler, Sem};
use std::ops::ControlFlow;
use std::sync::Arc;
use vstd::prelude::*;

verus! {

/// `a` terminates on `input`: its outcomes there are outputs, and they are
/// the same whatever the continuation is.
pub open spec fn terminates_on<I, O>(a: Sem<I, O>, input: I) -> bool {
    &&& forall|cont: Rel<I, O>, outcome: ControlFlow<O, I>| #[trigger]
        a(input, cont, outcome) ==> outcome is Break
    &&& forall|c1: Rel<I, O>, c2: Rel<I, O>, outcome: ControlFlow<O, I>|
        #![trigger a(input, c1, outcome), a(input, c2, outcome)]
        a(input, c1, outcome) == a(input, c2, outcome)
}

/// `a` declines on `input`: it hands `input` on to its continuation as it
/// is, or gives it back itself.
pub open spec fn declines_on<I, O>(a: Sem<I, O>, input: I) -> bool {
    forall|cont: Rel<I, O>, outcome: ControlFlow<O, I>| #[trigger]
        a(input, cont, outcome) ==> cont(input, outcome) || outcome == ControlFlow::<
            O,
            I,
        >::Continue(input)
}

/// `a` hands `input` on: its outcome there is that of its continuation on
/// the same input.
pub open spec fn hands_on<I, O>(a: Sem<I, O>, input: I) -> bool {
    forall|cont: Rel<I, O>, outcome: ControlFlow<O, I>| #[trigger]
        a(input, cont, outcome) ==> cont(input, outcome)
}

/// `entry()` hands every input on.
pub proof fn lemma_entry_hands_on<I, O>(input: I)
    ensures
        hands_on(entry_sem::<I, O>(), input),
        declines_on(entry_sem::<I, O>(), input),
{
}

/// A tree with a single branch does what the branch does: a dispatch of
/// `entry().branch(a)` has the outcomes of a dispatch of `a`.
pub proof fn lemma_branch_entry_dispatch<I, O>(a: Handler<I, O>, input: I, outcome: ControlFlow<O, I>)
    ensures
        branch_sem(entry_sem::<I, O>(), a@)(input, declined::<I, O>(), outcome) == a@(
            input,
            declined::<I, O>(),
            outcome,
        ),
{
    let a = a@;
    if a(input, declined::<I, O>(), outcome) {
        assert(branch_cont(a, declined::<I, O>())(input, outcome));
    }
}

/// Chaining `entry()` behind a handler changes nothing: `a.chain(entry())`
/// does what `a` does.
pub proof fn lemma_chain_entry_right<I, O>(a: Handler<I, O>)
    ensures
        chain_sem(a@, entry_sem::<I, O>()) == a@,
{
    let a = a@;
    assert forall|input: I, cont: Rel<I, O>, outcome: ControlFlow<O, I>|
        chain_sem(a, entry_sem::<I, O>())(input, cont, outcome) == #[trigger] a(
            input,
            cont,
            outcome,
        ) by {
        assert(chain_cont(entry_sem::<I, O>(), cont) =~= cont);
    }
    assert(chain_sem(a, entry_sem::<I, O>()) =~= a);
}

/// Chaining a handler behind `entry()` changes nothing: `entry().chain(a)`
/// does what `a` does.
pub proof fn lemma_chain_entry_left<I, O>(a: Handler<I, O>)
    ensures
        chain_sem(entry_sem::<I, O>(), a@) == a@,
{
    assert(chain_sem(entry_sem::<I, O>(), a@) =~= a@);
}

/// Chaining is associative: `a.chain(b).chain(c)` and `a.chain(b.chain(c))`
/// have the same outcomes on every input and under every continuation.
pub proof fn lemma_chain_associative<I, O>(a: Handler<I, O>, b: Handler<I, O>, c: Handler<I, O>)
    ensures
        chain_sem(chain_sem(a@, b@), c@) == chain_sem(a@, chain_sem(b@, c@)),
{
    let (a, b, c) = (a@, b@, c@);
    assert forall|input: I, cont: Rel<I, O>, outcome: ControlFlow<O, I>|
        chain_sem(chain_sem(a, b), c)(input, cont, outcome) == #[trigger] chain_sem(
            a,
            chain_sem(b, c),
        )(input, cont, outcome) by {
        assert(chain_cont(b, chain_cont(c, cont)) =~= chain_cont(chain_sem(b, c), cont));
    }
    assert(chain_sem(chain_sem(a, b), c) =~= chain_sem(a, chain_sem(b, c)));
}

/// A branch is biased to the left: on an input on which `a` terminates,
/// `a.branch(b)` has the outcomes of `a` alone, under every continuation and
/// whatever `b` is. So `b` has no part in them.
pub proof fn lemma_branch_left_bias<I, O>(
    a: Handler<I, O>,
    b: Handler<I, O>,
    input: I,
    cont: Rel<I, O>,
    outcome: ControlFlow<O, I>,
)
    requires
        terminates_on(a@, input),
    ensures
        branch_sem(a@, b@)(input, cont, outcome) == a@(input, declined::<I, O>(), outcome),
        branch_sem(a@, b@)(input, cont, outcome) ==> outcome is Break,
{
    let a = a@;
    assert(a(input, branch_cont(b@, cont), outcome) == a(input, declined::<I, O>(), outcome));
}

/// A branch leaves the input alone: if `a` and `b` both decline on `input`,
/// so does `a.branch(b)`, and a dispatch of it gives `input` back unchanged.
pub proof fn lemma_branch_isolation<I, O>(a: Handler<I, O>, b: Handler<I, O>, input: I)
    requires
        declines_on(a@, input),
        declines_on(b@, input),
    ensures
        declines_on(branch_sem(a@, b@), input),
        forall|outcome: ControlFlow<O, I>| #[trigger]
            branch_sem(a@, b@)(input, declined::<I, O>(), outcome) ==> outcome
                == ControlFlow::<O, I>::Continue(input),
{
    let (a, b) = (a@, b@);
    assert forall|cont: Rel<I, O>, outcome: ControlFlow<O, I>| #[trigger]
        branch_sem(a, b)(input, cont, outcome) implies cont(input, outcome) || outcome
        == ControlFlow::<O, I>::Continue(input) by {
        assert(a(input, branch_cont(b, cont), outcome));
        if branch_cont(b, cont)(input, outcome) {
            let inner = choose|inner: ControlFlow<O, I>|
                #[trigger] b(input, declined::<I, O>(), inner) && match inner {
                    ControlFlow::Continue(rest) => cont(rest, outcome),
                    ControlFlow::Break(output) => outcome == ControlFlow::<O, I>::Break(output),
                };
            assert(inner == ControlFlow::<O, I>::Continue(input));
        }
    }
}

/// A chain leaves the input alone: if `a` and `b` both decline on `input`, so
/// does `a.chain(b)`, and the continuation of the chain, if it is resumed at
/// all, receives `input` unchanged.
pub proof fn lemma_chain_isolation<I, O>(a: Handler<I, O>, b: Handler<I, O>, input: I)
    requires
        declines_on(a@, input),
        declines_on(b@, input),
    ensures
        declines_on(chain_sem(a@, b@), input),
{
    let (a, b) = (a@, b@);
    assert forall|cont: Rel<I, O>, outcome: ControlFlow<O, I>| #[trigger]
        chain_sem(a, b)(input, cont, outcome) implies cont(input, outcome) || outcome
        == ControlFlow::<O, I>::Continue(input) by {
        assert(a(input, chain_cont(b, cont), outcome));
        if chain_cont(b, cont)(input, outcome) {
            assert(b(input, cont, outcome));
        }
    }
}

/// A filter leaves the input alone: on a container that holds the
/// dependencies of its condition, it hands the container on to its
/// continuation as it is, or gives it back itself.
pub proof fn lemma_filter_declines<V, O, F: Fn(Vec<Arc<V>>) -> bool>(
    needs: Seq<TypeKey>,
    pred: F,
    input: DependencyMap<V>,
)
    requires
        all_present(input@, needs),
    ensures
        declines_on(filter_sem::<V, O, F>(needs, pred), input),
{
    let filter = filter_sem::<V, O, F>(needs, pred);
    assert forall|
        cont: Rel<DependencyMap<V>, Result<O, ResolutionFailure>>,
        outcome: ControlFlow<Result<O, ResolutionFailure>, DependencyMap<V>>,
    | #[trigger] filter(input, cont, outcome) implies cont(input, outcome) || outcome
        == ControlFlow::<Result<O, ResolutionFailure>, DependencyMap<V>>::Continue(input) by {
        let verdict = choose|verdict: Result<bool, ResolutionFailure>|
            #[trigger] di_sem::<V, bool, F>(needs, pred, input@, verdict) && filter_step(
                verdict,
                input,
                cont,
                outcome,
            );
        if let Err(failure) = verdict {
            lemma_present_is_not_missing(input@, needs, failure.missing);
        }
    }
}

/// Where every declared dependency is present, none is the first missing.
proof fn lemma_present_is_not_missing<V>(deps: Map<TypeKey, V>, needs: Seq<TypeKey>, key: TypeKey)
    requires
        all_present(deps, needs),
    ensures
        !first_missing(deps, needs, key),
{
    if first_missing(deps, needs, key) {
        let i = choose|i: int|
            0 <= i < needs.len() && #[trigger] needs[i] == key && !deps.contains_key(key)
                && all_present(deps, needs.take(i));
        assert(deps.contains_key(needs[i]));
    }
}

/// An endpoint never declines: each of its outcomes is an output, and the
/// output is the result of the function whenever every dependency that the
/// function declares is present. The continuation has no part in it.
pub proof fn lemma_endpoint_total<V, O, F: Fn(Vec<Arc<V>>) -> O>(
    needs: Seq<TypeKey>,
    body: F,
    input: DependencyMap<V>,
    cont: Rel<DependencyMap<V>, Result<O, ResolutionFailure>>,
    outcome: ControlFlow<Result<O, ResolutionFailure>, DependencyMap<V>>,
)
    requires
        endpoint_sem::<V, O, F>(needs, body)(input, cont, outcome),
    ensures
        outcome is Break,
        all_present(input@, needs) ==> outcome matches ControlFlow::Break(Ok(_)),
        terminates_on(endpoint_sem::<V, O, F>(needs, body), input),
{
    if all_present(input@, needs) {
        if let ControlFlow::Break(Err(failure)) = outcome {
            lemma_present_is_not_missing(input@, needs, failure.missing);
        }
    }
}

/// A missing dependency is fatal: an endpoint that declares a dependency
/// which the container lacks terminates with the failure that names the
/// first such dependency. It neither declines nor returns a result.
pub proof fn lemma_missing_dependency_fails<V, O, F: Fn(Vec<Arc<V>>) -> O>(
    needs: Seq<TypeKey>,
    body: F,
    input: DependencyMap<V>,
    cont: Rel<DependencyMap<V>, Result<O, ResolutionFailure>>,
    outcome: ControlFlow<Result<O, ResolutionFailure>, DependencyMap<V>>,
)
    requires
        !all_present(input@, needs),
        endpoint_sem::<V, O, F>(needs, body)(input, cont, outcome),
    ensures
        outcome matches ControlFlow::Break(Err(failure)) && first_missing(
            input@,
            needs,
            failure.missing,
        ),
{
}

/// The failure of an endpoint reaches the caller of `dispatch`: in a tree
/// where `first` hands the input on to the endpoint, by a chain or by a
/// branch, the outcome of the tree is the failure of the endpoint.
pub proof fn lemma_failure_propagates<V, O, F: Fn(Vec<Arc<V>>) -> O>(
    first: Handler<DependencyMap<V>, Result<O, ResolutionFailure>>,
    needs: Seq<TypeKey>,
    body: F,
    input: DependencyMap<V>,
    cont: Rel<DependencyMap<V>, Result<O, ResolutionFailure>>,
    outcome: ControlFlow<Result<O, ResolutionFailure>, DependencyMap<V>>,
)
    requires
        hands_on(first@, input),
        !all_present(input@, needs),
        chain_sem(first@, endpoint_sem::<V, O, F>(needs, body))(input, cont, outcome) || branch_sem(
            first@,
            endpoint_sem::<V, O, F>(needs, body),
        )(input, cont, outcome),
    ensures
        outcome matches ControlFlow::Break(Err(failure)) && first_missing(
            input@,
            needs,
            failure.missing,
        ),
{
    let first = first@;
    let end = endpoint_sem::<V, O, F>(needs, body);
    if chain_sem(first, end)(input, cont, outcome) {
        assert(first(input, chain_cont(end, cont), outcome));
        assert(chain_cont(end, cont)(input, outcome));
    } else {
        assert(first(input, branch_cont(end, cont), outcome));
        assert(branch_cont(end, cont)(input, outcome));
    }
}

/// What was inserted is what is found: after `value` is stored under `key`,
/// looking up `key` gives `value`, and every other key gives what it gave
/// before.
pub proof fn lemma_insert_then_get<V>(
    deps: Map<TypeKey, V>,
    key: TypeKey,
    value: V,
    other: TypeKey,
)
    ensures
        lookup(deps.insert(key, value), key) == Ok::<V, ResolutionFailure>(value),
        other != key ==> lookup(deps.insert(key, value), other) == lookup(deps, other),
{
}

} // verus!
