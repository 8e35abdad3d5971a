//! Continuations: the rest of a dispatch, resumed with the input that a
//! handler did not consume.
use std::marker::PhantomData;
use std::ops::ControlFlow;
use std::sync::Arc;
use vstd::prelude::*;

verus! {

/// The outcomes that a continuation may have: `rel(input, outcome)` holds
/// when resuming it with `input` can end in `outcome`.
pub type Rel<I, O> = spec_fn(I, ControlFlow<O, I>) -> bool;

/// The relation of the continuation that ends a dispatch: the input comes
/// back as it is, declined.
pub open spec fn declined<I, O>() -> Rel<I, O> {
    |input: I, outcome: ControlFlow<O, I>| outcome == ControlFlow::<O, I>::Continue(input)
}

/// The relation of a function used as a continuation: its postcondition.
pub open spec fn fn_rel<I, O, K: Fn(I) -> ControlFlow<O, I>>(k: K) -> Rel<I, O> {
    |input: I, outcome: ControlFlow<O, I>| call_ensures(k, (input,), outcome)
}

/// `std::sync::Arc::clone`: the new handle points to the value that `a`
/// points to.
#[verifier::external_body]
pub(crate) fn share<T>(a: &Arc<T>) -> (res: Arc<T>)
    ensures
        res == *a,
{
    Arc::clone(a)
}

/// What a continuation is made of: something that can be resumed any number
/// of times, together with the relation that bounds its outcomes.
pub(crate) trait ContFn<I, O>: Send + Sync {
    spec fn yields(&self, input: I, outcome: ControlFlow<O, I>) -> bool;

    fn resume(&self, input: I) -> (outcome: ControlFlow<O, I>)
        ensures
            self.yields(input, outcome),
    ;
}

/// The continuation that declines whatever reaches it.
pub(crate) struct Declining {}

impl<I, O> ContFn<I, O> for Declining {
    closed spec fn yields(&self, input: I, outcome: ControlFlow<O, I>) -> bool {
        outcome == ControlFlow::<O, I>::Continue(input)
    }

    fn resume(&self, input: I) -> (outcome: ControlFlow<O, I>) {
        ControlFlow::Continue(input)
    }
}

/// A function of the caller, used as a continuation.
#[verifier::reject_recursive_types(I)]
#[verifier::reject_recursive_types(O)]
#[verifier::reject_recursive_types(K)]
pub(crate) struct FnCont<I, O, K: Fn(I) -> ControlFlow<O, I>> {
    k: K,
    marker: PhantomData<(I, O)>,
}

impl<I, O, K: Fn(I) -> ControlFlow<O, I>> FnCont<I, O, K> {
    #[verifier::type_invariant]
    spec fn total(&self) -> bool {
        forall|input: I| #[trigger] call_requires(self.k, (input,))
    }
}

impl<I: Send + Sync, O: Send + Sync, K: Fn(I) -> ControlFlow<O, I> + Send + Sync> ContFn<
    I,
    O,
> for FnCont<I, O, K> {
    closed spec fn yields(&self, input: I, outcome: ControlFlow<O, I>) -> bool {
        call_ensures(self.k, (input,), outcome)
    }

    fn resume(&self, input: I) -> (outcome: ControlFlow<O, I>) {
        proof {
            use_type_invariant(self);
        }
        (self.k)(input)
    }
}

/// The remaining computation of a dispatch. A handler that does not consume
/// its input resumes its continuation with it.
///
/// Cloning shares the continuation.
#[verifier::reject_recursive_types(I)]
#[verifier::reject_recursive_types(O)]
pub struct Cont<I, O> {
    f: Arc<Box<dyn ContFn<I, O>>>,
}

impl<I, O> Cont<I, O> {
    /// The outcomes that resuming this continuation may have.
    pub closed spec fn view(&self) -> Rel<I, O> {
        |input: I, outcome: ControlFlow<O, I>| self.f.yields(input, outcome)
    }

    /// Makes a continuation of what it is made of.
    pub(crate) fn from_parts(f: Box<dyn ContFn<I, O>>) -> (cont: Self)
        ensures
            forall|input: I, outcome: ControlFlow<O, I>|
                #![trigger cont@(input, outcome)]
                #![trigger f.yields(input, outcome)]
                cont@(input, outcome) == f.yields(input, outcome),
    {
        let shared = Arc::new(f);
        assert(shared == f);
        Cont { f: shared }
    }

    /// Resumes the dispatch with `input`.
    pub fn call(&self, input: I) -> (outcome: ControlFlow<O, I>)
        ensures
            self@(input, outcome),
    {
        self.f.resume(input)
    }
}

impl<I: Send + Sync + 'static, O: Send + Sync + 'static> Cont<I, O> {
    /// Makes a continuation of a function that accepts every input.
    pub fn new<K>(k: K) -> (cont: Self) where
        K: Fn(I) -> ControlFlow<O, I> + Send + Sync + 'static,

        requires
            forall|input: I| #[trigger] call_requires(k, (input,)),
        ensures
            cont@ == fn_rel::<I, O, K>(k),
    {
        let cont = Cont::from_parts(Box::new(FnCont { k, marker: PhantomData }));
        assert(cont@ =~= fn_rel::<I, O, K>(k));
        cont
    }

    /// The continuation that ends a dispatch: it declines, giving back the
    /// input it was resumed with.
    pub fn identity() -> (cont: Self)
        ensures
            cont@ == declined::<I, O>(),
    {
        let cont = Cont::from_parts(Box::new(Declining {}));
        assert(cont@ =~= declined::<I, O>());
        cont
    }
}

impl<I, O> Clone for Cont<I, O> {
    fn clone(&self) -> (res: Self)
        ensures
            res == *self,
    {
        Cont { f: share(&self.f) }
    }
}

} // verus!
