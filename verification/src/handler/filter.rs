//! The handler that lets an input through only if a condition holds of it.
use crate::cont::{Cont, Rel};
use crate::container::{DependencyMap, ResolutionFailure, TypeKey};
use crate::di::{di_sem, DiFn};
use crate::handler::endpoint::Endpoint;
use crate::handler::engine::{Handler, HandlerFn, Sem};
use std::ops::ControlFlow;
use std::sync::Arc;
use vstd::prelude::*;

verus! {

/// What a filter does once its condition has been evaluated to `verdict`:
/// it resumes its continuation if the condition holds, declines with the
/// input unchanged if it does not, and terminates with the failure if a
/// dependency of the condition is missing.
pub open spec fn filter_step<V, O>(
    verdict: Result<bool, ResolutionFailure>,
    input: DependencyMap<V>,
    cont: Rel<DependencyMap<V>, Result<O, ResolutionFailure>>,
    outcome: ControlFlow<Result<O, ResolutionFailure>, DependencyMap<V>>,
) -> bool {
    match verdict {
        Ok(holds) => if holds {
            cont(input, outcome)
        } else {
            outcome == ControlFlow::<Result<O, ResolutionFailure>, DependencyMap<V>>::Continue(input)
        },
        Err(failure) => outcome == ControlFlow::<
            Result<O, ResolutionFailure>,
            DependencyMap<V>,
        >::Break(Err(failure)),
    }
}

/// The filter made of a condition with the declared dependencies `needs`.
pub open spec fn filter_sem<V, O, F: Fn(Vec<Arc<V>>) -> bool>(needs: Seq<TypeKey>, pred: F) -> Sem<
    DependencyMap<V>,
    Result<O, ResolutionFailure>,
> {
    |
        input: DependencyMap<V>,
        cont: Rel<DependencyMap<V>, Result<O, ResolutionFailure>>,
        outcome: ControlFlow<Result<O, ResolutionFailure>, DependencyMap<V>>,
    |
        exists|verdict: Result<bool, ResolutionFailure>|
            #[trigger] di_sem::<V, bool, F>(needs, pred, input@, verdict) && filter_step(
                verdict,
                input,
                cont,
                outcome,
            )
}

/// A condition of the caller, used as a filter.
#[verifier::reject_recursive_types(V)]
#[verifier::reject_recursive_types(F)]
pub(crate) struct FilterFn<V, F: Fn(Vec<Arc<V>>) -> bool> {
    pred: DiFn<V, bool, F>,
}

impl<V, O, F> HandlerFn<DependencyMap<V>, Result<O, ResolutionFailure>> for FilterFn<V, F> where
    V: Send + Sync,
    F: Fn(Vec<Arc<V>>) -> bool + Send + Sync,
 {
    closed spec fn yields(
        &self,
        input: DependencyMap<V>,
        cont: Rel<DependencyMap<V>, Result<O, ResolutionFailure>>,
        outcome: ControlFlow<Result<O, ResolutionFailure>, DependencyMap<V>>,
    ) -> bool {
        filter_sem::<V, O, F>(self.pred.needs(), self.pred.body())(input, cont, outcome)
    }

    fn handle(
        &self,
        input: DependencyMap<V>,
        cont: Cont<DependencyMap<V>, Result<O, ResolutionFailure>>,
    ) -> (outcome: ControlFlow<Result<O, ResolutionFailure>, DependencyMap<V>>) {
        let verdict = self.pred.call(&input);
        let outcome = match verdict {
            Ok(holds) => if holds {
                cont.call(input)
            } else {
                ControlFlow::Continue(input)
            },
            Err(failure) => ControlFlow::Break(Err(failure)),
        };
        assert(filter_step(verdict, input, cont@, outcome));
        outcome
    }
}

/// Constructs a handler that filters input with the condition `pred`.
///
/// If the condition holds of the dependencies it declares, the input goes on
/// to the continuation. If it does not, the handler declines, and whatever
/// follows it in its chain is skipped.
#[must_use]
pub fn filter<V, O, F>(pred: DiFn<V, bool, F>) -> (handler: Endpoint<V, O>) where
    V: Send + Sync + 'static,
    O: Send + Sync + 'static,
    F: Fn(Vec<Arc<V>>) -> bool + Send + Sync + 'static,

    ensures
        handler@ == filter_sem::<V, O, F>(pred.needs(), pred.body()),
{
    let handler = Handler::from_parts(Box::new(FilterFn { pred }));
    assert(handler@ =~= filter_sem::<V, O, F>(pred.needs(), pred.body()));
    handler
}

} // verus!
