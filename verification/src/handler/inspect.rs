//! The handler that looks at the container and passes it on.
use crate::cont::{Cont, Rel};
use crate::container::{DependencyMap, ResolutionFailure, TypeKey};
use crate::di::{di_sem, DiFn};
use crate::handler::endpoint::Endpoint;
use crate::handler::engine::{Handler, HandlerFn, Sem};
use std::ops::ControlFlow;
use std::sync::Arc;
use vstd::prelude::*;

verus! {

/// What an inspection does once its function has run with the result `seen`:
/// it resumes its continuation with the input unchanged, or terminates with
/// the failure if a dependency of the function is missing.
pub open spec fn inspect_step<V, O>(
    seen: Result<(), ResolutionFailure>,
    input: DependencyMap<V>,
    cont: Rel<DependencyMap<V>, Result<O, ResolutionFailure>>,
    outcome: ControlFlow<Result<O, ResolutionFailure>, DependencyMap<V>>,
) -> bool {
    match seen {
        Ok(_) => cont(input, outcome),
        Err(failure) => outcome == ControlFlow::<
            Result<O, ResolutionFailure>,
            DependencyMap<V>,
        >::Break(Err(failure)),
    }
}

/// The inspection made of a function with the declared dependencies `needs`.
pub open spec fn inspect_sem<V, O, F: Fn(Vec<Arc<V>>) -> ()>(needs: Seq<TypeKey>, f: F) -> Sem<
    DependencyMap<V>,
    Result<O, ResolutionFailure>,
> {
    |
        input: DependencyMap<V>,
        cont: Rel<DependencyMap<V>, Result<O, ResolutionFailure>>,
        outcome: ControlFlow<Result<O, ResolutionFailure>, DependencyMap<V>>,
    |
        exists|seen: Result<(), ResolutionFailure>|
            #[trigger] di_sem::<V, (), F>(needs, f, input@, seen) && inspect_step(
                seen,
                input,
                cont,
                outcome,
            )
}

/// A function of the caller, used as an inspection.
#[verifier::reject_recursive_types(V)]
#[verifier::reject_recursive_types(F)]
pub(crate) struct InspectFn<V, F: Fn(Vec<Arc<V>>) -> ()> {
    f: DiFn<V, (), F>,
}

impl<V, O, F> HandlerFn<DependencyMap<V>, Result<O, ResolutionFailure>> for InspectFn<V, F> where
    V: Send + Sync,
    F: Fn(Vec<Arc<V>>) -> () + Send + Sync,
 {
    closed spec fn yields(
        &self,
        input: DependencyMap<V>,
        cont: Rel<DependencyMap<V>, Result<O, ResolutionFailure>>,
        outcome: ControlFlow<Result<O, ResolutionFailure>, DependencyMap<V>>,
    ) -> bool {
        inspect_sem::<V, O, F>(self.f.needs(), self.f.body())(input, cont, outcome)
    }

    fn handle(
        &self,
        input: DependencyMap<V>,
        cont: Cont<DependencyMap<V>, Result<O, ResolutionFailure>>,
    ) -> (outcome: ControlFlow<Result<O, ResolutionFailure>, DependencyMap<V>>) {
        let seen = self.f.call(&input);
        let outcome = match seen {
            Ok(_) => cont.call(input),
            Err(failure) => ControlFlow::Break(Err(failure)),
        };
        assert(inspect_step(seen, input, cont@, outcome));
        outcome
    }
}

/// Constructs a handler that inspects current state. It runs `f` on the
/// dependencies it declares and then passes the container on as it is.
#[must_use]
pub fn inspect<V, O, F>(f: DiFn<V, (), F>) -> (handler: Endpoint<V, O>) where
    V: Send + Sync + 'static,
    O: Send + Sync + 'static,
    F: Fn(Vec<Arc<V>>) -> () + Send + Sync + 'static,

    ensures
        handler@ == inspect_sem::<V, O, F>(f.needs(), f.body()),
{
    let handler = Handler::from_parts(Box::new(InspectFn { f }));
    assert(handler@ =~= inspect_sem::<V, O, F>(f.needs(), f.body()));
    handler
}

} // verus!
