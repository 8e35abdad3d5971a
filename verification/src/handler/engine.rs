//! The handler type, its two constructors, the two composition operators and
//! the two ways to run a handler.
use crate::cont::{declined, fn_rel, share, Cont, Rel};
use std::marker::PhantomData;
use std::ops::ControlFlow;
use std::sync::Arc;
use vstd::prelude::*;

verus! {

/// What a handler does: `sem(input, cont, outcome)` holds when the handler,
/// given `input` and a continuation whose possible outcomes are `cont`, can
/// end in `outcome`.
pub type Sem<I, O> = spec_fn(I, Rel<I, O>, ControlFlow<O, I>) -> bool;

/// The identity handler: its outcome is that of its continuation on the same
/// input.
pub open spec fn entry_sem<I, O>() -> Sem<I, O> {
    |input: I, cont: Rel<I, O>, outcome: ControlFlow<O, I>| cont(input, outcome)
}

/// The continuation that `first` gets in `first.chain(next)`: `next` on the
/// leftover, with the outer continuation still behind it.
pub open spec fn chain_cont<I, O>(next: Sem<I, O>, cont: Rel<I, O>) -> Rel<I, O> {
    |leftover: I, outcome: ControlFlow<O, I>| next(leftover, cont, outcome)
}

/// Sequential composition: `first` runs with `next` as its continuation, and
/// the outer continuation follows `next`.
pub open spec fn chain_sem<I, O>(first: Sem<I, O>, next: Sem<I, O>) -> Sem<I, O> {
    |input: I, cont: Rel<I, O>, outcome: ControlFlow<O, I>|
        first(input, chain_cont(next, cont), outcome)
}

/// The continuation that `first` gets in `first.branch(next)`: `next` is
/// dispatched on the leftover as a tree of its own. If it terminates, that is
/// the outcome; if it declines, the outer continuation takes its leftover.
pub open spec fn branch_cont<I, O>(next: Sem<I, O>, cont: Rel<I, O>) -> Rel<I, O> {
    |leftover: I, outcome: ControlFlow<O, I>|
        exists|inner: ControlFlow<O, I>|
            #[trigger] next(leftover, declined::<I, O>(), inner) && match inner {
                ControlFlow::Continue(rest) => cont(rest, outcome),
                ControlFlow::Break(output) => outcome == ControlFlow::<O, I>::Break(output),
            }
}

/// Tree composition: `first` runs with the independent alternative `next` as
/// its continuation.
pub open spec fn branch_sem<I, O>(first: Sem<I, O>, next: Sem<I, O>) -> Sem<I, O> {
    |input: I, cont: Rel<I, O>, outcome: ControlFlow<O, I>|
        first(input, branch_cont(next, cont), outcome)
}

/// The handler made of a function: an outcome is possible when the function's
/// postcondition admits it for some continuation with the given outcomes.
pub open spec fn fn_sem<I, O, F: Fn(I, Cont<I, O>) -> ControlFlow<O, I>>(f: F) -> Sem<I, O> {
    |input: I, cont: Rel<I, O>, outcome: ControlFlow<O, I>|
        exists|c: Cont<I, O>| c@ == cont && #[trigger] call_ensures(f, (input, c), outcome)
}

/// What a handler is made of.
pub(crate) trait HandlerFn<I, O>: Send + Sync {
    spec fn yields(&self, input: I, cont: Rel<I, O>, outcome: ControlFlow<O, I>) -> bool;

    fn handle(&self, input: I, cont: Cont<I, O>) -> (outcome: ControlFlow<O, I>)
        ensures
            self.yields(input, cont@, outcome),
    ;
}

/// An instance that receives an input and decides whether to break a chain or
/// pass the value further.
///
/// A handler is immutable. Cloning it shares the function it holds.
#[verifier::reject_recursive_types(I)]
#[verifier::reject_recursive_types(O)]
pub struct Handler<I, O> {
    f: Arc<Box<dyn HandlerFn<I, O>>>,
}

impl<I, O> Clone for Handler<I, O> {
    fn clone(&self) -> (res: Self)
        ensures
            res == *self,
    {
        Handler { f: share(&self.f) }
    }
}

impl<I, O> Handler<I, O> {
    /// What this handler does.
    pub closed spec fn view(&self) -> Sem<I, O> {
        |input: I, cont: Rel<I, O>, outcome: ControlFlow<O, I>| self.f.yields(input, cont, outcome)
    }

    /// Makes a handler of what it is made of.
    pub(crate) fn from_parts(f: Box<dyn HandlerFn<I, O>>) -> (handler: Self)
        ensures
            forall|input: I, cont: Rel<I, O>, outcome: ControlFlow<O, I>|
                #![trigger handler@(input, cont, outcome)]
                #![trigger f.yields(input, cont, outcome)]
                handler@(input, cont, outcome) == f.yields(input, cont, outcome),
    {
        let shared = Arc::new(f);
        assert(shared == f);
        Handler { f: shared }
    }

    /// Runs this handler on `input`, with `cont` as the rest of the dispatch.
    pub fn call(&self, input: I, cont: Cont<I, O>) -> (outcome: ControlFlow<O, I>)
        ensures
            self@(input, cont@, outcome),
    {
        self.f.handle(input, cont)
    }
}

/// The root of a tree: hands every input to its continuation.
pub(crate) struct Entry {}

impl<I, O> HandlerFn<I, O> for Entry {
    closed spec fn yields(&self, input: I, cont: Rel<I, O>, outcome: ControlFlow<O, I>) -> bool {
        cont(input, outcome)
    }

    fn handle(&self, input: I, cont: Cont<I, O>) -> (outcome: ControlFlow<O, I>) {
        cont.call(input)
    }
}

/// A function of the caller, used as a handler.
#[verifier::reject_recursive_types(I)]
#[verifier::reject_recursive_types(O)]
#[verifier::reject_recursive_types(F)]
pub(crate) struct FnHandler<I, O, F: Fn(I, Cont<I, O>) -> ControlFlow<O, I>> {
    f: F,
    marker: PhantomData<(I, O)>,
}

impl<I, O, F: Fn(I, Cont<I, O>) -> ControlFlow<O, I>> FnHandler<I, O, F> {
    #[verifier::type_invariant]
    spec fn total(&self) -> bool {
        forall|input: I, cont: Cont<I, O>| #[trigger] call_requires(self.f, (input, cont))
    }
}

impl<I: Send + Sync, O: Send + Sync, F: Fn(I, Cont<I, O>) -> ControlFlow<O, I> + Send + Sync> HandlerFn<
    I,
    O,
> for FnHandler<I, O, F> {
    closed spec fn yields(&self, input: I, cont: Rel<I, O>, outcome: ControlFlow<O, I>) -> bool {
        fn_sem::<I, O, F>(self.f)(input, cont, outcome)
    }

    fn handle(&self, input: I, cont: Cont<I, O>) -> (outcome: ControlFlow<O, I>) {
        proof {
            use_type_invariant(self);
        }
        (self.f)(input, cont)
    }
}

/// The continuation of the first handler of a chain.
#[verifier::reject_recursive_types(I)]
#[verifier::reject_recursive_types(O)]
pub(crate) struct ChainCont<I, O> {
    next: Handler<I, O>,
    cont: Cont<I, O>,
}

impl<I: Send + Sync, O: Send + Sync> crate::cont::ContFn<I, O> for ChainCont<I, O> {
    closed spec fn yields(&self, input: I, outcome: ControlFlow<O, I>) -> bool {
        chain_cont(self.next@, self.cont@)(input, outcome)
    }

    fn resume(&self, input: I) -> (outcome: ControlFlow<O, I>) {
        self.next.call(input, self.cont.clone())
    }
}

/// The continuation of the first handler of a branch.
#[verifier::reject_recursive_types(I)]
#[verifier::reject_recursive_types(O)]
pub(crate) struct BranchCont<I, O> {
    next: Handler<I, O>,
    cont: Cont<I, O>,
}

impl<I: Send + Sync + 'static, O: Send + Sync + 'static> crate::cont::ContFn<I, O> for BranchCont<
    I,
    O,
> {
    closed spec fn yields(&self, input: I, outcome: ControlFlow<O, I>) -> bool {
        branch_cont(self.next@, self.cont@)(input, outcome)
    }

    fn resume(&self, input: I) -> (outcome: ControlFlow<O, I>) {
        match self.next.dispatch(input) {
            ControlFlow::Continue(rest) => self.cont.call(rest),
            ControlFlow::Break(output) => ControlFlow::Break(output),
        }
    }
}

/// Two handlers in sequence.
#[verifier::reject_recursive_types(I)]
#[verifier::reject_recursive_types(O)]
pub(crate) struct Chained<I, O> {
    first: Handler<I, O>,
    next: Handler<I, O>,
}

impl<I: Send + Sync + 'static, O: Send + Sync + 'static> HandlerFn<I, O> for Chained<I, O> {
    closed spec fn yields(&self, input: I, cont: Rel<I, O>, outcome: ControlFlow<O, I>) -> bool {
        chain_sem(self.first@, self.next@)(input, cont, outcome)
    }

    fn handle(&self, input: I, cont: Cont<I, O>) -> (outcome: ControlFlow<O, I>) {
        let rest = Cont::from_parts(Box::new(ChainCont { next: self.next.clone(), cont }));
        assert(rest@ =~= chain_cont(self.next@, cont@));
        self.first.call(input, rest)
    }
}

/// A handler and an independent alternative to it.
#[verifier::reject_recursive_types(I)]
#[verifier::reject_recursive_types(O)]
pub(crate) struct Branched<I, O> {
    first: Handler<I, O>,
    next: Handler<I, O>,
}

impl<I: Send + Sync + 'static, O: Send + Sync + 'static> HandlerFn<I, O> for Branched<I, O> {
    closed spec fn yields(&self, input: I, cont: Rel<I, O>, outcome: ControlFlow<O, I>) -> bool {
        branch_sem(self.first@, self.next@)(input, cont, outcome)
    }

    fn handle(&self, input: I, cont: Cont<I, O>) -> (outcome: ControlFlow<O, I>) {
        let rest = Cont::from_parts(Box::new(BranchCont { next: self.next.clone(), cont }));
        assert(rest@ =~= branch_cont(self.next@, cont@));
        self.first.call(input, rest)
    }
}

impl<I: Send + Sync + 'static, O: Send + Sync + 'static> Handler<I, O> {
    /// Chain two handlers to form a chain of responsibility.
    ///
    /// First `self` runs. If it resumes its continuation, `next` runs on the
    /// leftover, and the continuation of the whole chain is still pending
    /// behind `next`.
    #[must_use]
    pub fn chain(self, next: Self) -> (handler: Self)
        ensures
            handler@ == chain_sem(self@, next@),
    {
        let handler = Handler::from_parts(Box::new(Chained { first: self, next }));
        assert(handler@ =~= chain_sem(self@, next@));
        handler
    }

    /// Chain two handlers to make a tree of responsibility.
    ///
    /// First `self` runs. If it resumes its continuation, `next` is
    /// dispatched on the leftover as a tree of its own: what `next` terminates
    /// with is the outcome, and only if `next` declines does the continuation
    /// of the whole branch take the leftover.
    #[must_use]
    pub fn branch(self, next: Self) -> (handler: Self)
        ensures
            handler@ == branch_sem(self@, next@),
    {
        let handler = Handler::from_parts(Box::new(Branched { first: self, next }));
        assert(handler@ =~= branch_sem(self@, next@));
        handler
    }

    /// Executes this handler with a continuation.
    ///
    /// The continuation is a function that accepts every input. To run a
    /// handler without one, see [`Handler::dispatch`].
    pub fn execute<K>(self, container: I, cont: K) -> (outcome: ControlFlow<O, I>) where
        K: Fn(I) -> ControlFlow<O, I> + Send + Sync + 'static,

        requires
            forall|input: I| #[trigger] call_requires(cont, (input,)),
        ensures
            self@(container, fn_rel::<I, O, K>(cont), outcome),
    {
        self.call(container, Cont::new(cont))
    }

    /// Executes this handler.
    ///
    /// Returns `ControlFlow::Break` when the handler terminated with an
    /// output, and `ControlFlow::Continue` with the leftover otherwise.
    pub fn dispatch(&self, container: I) -> (outcome: ControlFlow<O, I>)
        ensures
            self@(container, declined::<I, O>(), outcome),
    {
        self.call(container, Cont::identity())
    }
}

/// Constructs a handler from a function that accepts every input and every
/// continuation.
#[must_use]
pub fn from_fn<F, I, O>(f: F) -> (handler: Handler<I, O>) where
    F: Fn(I, Cont<I, O>) -> ControlFlow<O, I> + Send + Sync + 'static,
    I: Send + Sync + 'static,
    O: Send + Sync + 'static,

    requires
        forall|input: I, cont: Cont<I, O>| #[trigger] call_requires(f, (input, cont)),
    ensures
        handler@ == fn_sem::<I, O, F>(f),
{
    let handler = Handler::from_parts(Box::new(FnHandler { f, marker: PhantomData }));
    assert(handler@ =~= fn_sem::<I, O, F>(f));
    handler
}

/// Constructs an entry point handler.
///
/// It resumes its continuation with the input it was given, so a tree is
/// built upon it.
#[must_use]
pub fn entry<I, O>() -> (handler: Handler<I, O>) where
    I: Send + Sync + 'static,
    O: Send + Sync + 'static,

    ensures
        handler@ == entry_sem::<I, O>(),
{
    let handler = Handler::from_parts(Box::new(Entry {}));
    assert(handler@ =~= entry_sem::<I, O>());
    handler
}

} // verus!
