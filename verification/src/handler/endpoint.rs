//! The terminal handler made of a function that takes its arguments from the
//! dependency container.
use crate::cont::{Cont, Rel};
use crate::container::{DependencyMap, ResolutionFailure, TypeKey};
use crate::di::{di_sem, DiFn};
use crate::handler::engine::{chain_sem, Handler, HandlerFn, Sem};
use std::ops::ControlFlow;
use std::sync::Arc;
use vstd::prelude::*;

verus! {

/// A handler that takes the input of a dispatch to be a dependency container
/// and reports an unsatisfied dependency in its output.
pub type Endpoint<V, O> = Handler<DependencyMap<V>, Result<O, ResolutionFailure>>;

/// The endpoint made of a function: it always terminates, with what the
/// function returns or with the failure to resolve its dependencies. Its
/// continuation plays no part.
pub open spec fn endpoint_sem<V, O, F: Fn(Vec<Arc<V>>) -> O>(needs: Seq<TypeKey>, body: F) -> Sem<
    DependencyMap<V>,
    Result<O, ResolutionFailure>,
> {
    |
        input: DependencyMap<V>,
        cont: Rel<DependencyMap<V>, Result<O, ResolutionFailure>>,
        outcome: ControlFlow<Result<O, ResolutionFailure>, DependencyMap<V>>,
    |
        match outcome {
            ControlFlow::Break(result) => di_sem::<V, O, F>(needs, body, input@, result),
            ControlFlow::Continue(_) => false,
        }
}

/// A function of the caller, used as an endpoint.
#[verifier::reject_recursive_types(V)]
#[verifier::reject_recursive_types(O)]
#[verifier::reject_recursive_types(F)]
pub(crate) struct EndpointFn<V, O, F: Fn(Vec<Arc<V>>) -> O> {
    func: DiFn<V, O, F>,
}

impl<V, O, F> HandlerFn<DependencyMap<V>, Result<O, ResolutionFailure>> for EndpointFn<V, O, F> where
    V: Send + Sync,
    O: Send + Sync,
    F: Fn(Vec<Arc<V>>) -> O + Send + Sync,
 {
    closed spec fn yields(
        &self,
        input: DependencyMap<V>,
        cont: Rel<DependencyMap<V>, Result<O, ResolutionFailure>>,
        outcome: ControlFlow<Result<O, ResolutionFailure>, DependencyMap<V>>,
    ) -> bool {
        endpoint_sem::<V, O, F>(self.func.needs(), self.func.body())(input, cont, outcome)
    }

    fn handle(
        &self,
        input: DependencyMap<V>,
        cont: Cont<DependencyMap<V>, Result<O, ResolutionFailure>>,
    ) -> (outcome: ControlFlow<Result<O, ResolutionFailure>, DependencyMap<V>>) {
        ControlFlow::Break(self.func.call(&input))
    }
}

/// Create endpoint handler.
///
/// Endpoint is a handler that _always_ breaks execution after its completion.
/// It resolves the dependencies that `f` declares against the container it is
/// given. If one of them is missing it terminates with the failure that names
/// it, and never declines.
#[must_use]
pub fn endpoint<V, O, F>(f: DiFn<V, O, F>) -> (handler: Endpoint<V, O>) where
    V: Send + Sync + 'static,
    O: Send + Sync + 'static,
    F: Fn(Vec<Arc<V>>) -> O + Send + Sync + 'static,

    ensures
        handler@ == endpoint_sem::<V, O, F>(f.needs(), f.body()),
        forall|
            input: DependencyMap<V>,
            cont: Rel<DependencyMap<V>, Result<O, ResolutionFailure>>,
            outcome: ControlFlow<Result<O, ResolutionFailure>, DependencyMap<V>>,
        | #[trigger] handler@(input, cont, outcome) ==> outcome is Break,
{
    let handler = Handler::from_parts(Box::new(EndpointFn { func: f }));
    assert(handler@ =~= endpoint_sem::<V, O, F>(f.needs(), f.body()));
    handler
}

impl<V: Send + Sync + 'static, O: Send + Sync + 'static> Handler<
    DependencyMap<V>,
    Result<O, ResolutionFailure>,
> {
    /// Chain self handler with `endpoint` handler.
    #[must_use]
    pub fn endpoint<F>(self, endp: DiFn<V, O, F>) -> (handler: Endpoint<V, O>) where
        F: Fn(Vec<Arc<V>>) -> O + Send + Sync + 'static,

        ensures
            handler@ == chain_sem(self@, endpoint_sem::<V, O, F>(endp.needs(), endp.body())),
    {
        self.chain(endpoint(endp))
    }
}

} // verus!
