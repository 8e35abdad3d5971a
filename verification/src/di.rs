//! Functions that take their arguments from the dependency container.
use crate::container::{all_present, first_missing, resolved, DependencyMap, ResolutionFailure, TypeKey};
use std::marker::PhantomData;
use std::sync::Arc;
use vstd::prelude::*;

verus! {

/// The function can return `output` when it is called with a handle to each
/// of its declared dependencies, in the order of declaration.
pub open spec fn produces<V, O, F: Fn(Vec<Arc<V>>) -> O>(
    needs: Seq<TypeKey>,
    body: F,
    deps: Map<TypeKey, V>,
    output: O,
) -> bool {
    exists|args: Vec<Arc<V>>|
        resolved(deps, needs, args@) && #[trigger] call_ensures(body, (args,), output)
}

/// The results that are possible when a function with the declared
/// dependencies `needs` is run against a container that holds `deps`.
///
/// If every declared dependency is present, the function is called with
/// them, and the result is what it returns. Otherwise the function is not
/// called, and the result is the failure that names the first dependency
/// that is missing.
pub open spec fn di_sem<V, O, F: Fn(Vec<Arc<V>>) -> O>(
    needs: Seq<TypeKey>,
    body: F,
    deps: Map<TypeKey, V>,
    result: Result<O, ResolutionFailure>,
) -> bool {
    match result {
        Ok(output) => all_present(deps, needs) && produces(needs, body, deps, output),
        Err(failure) => first_missing(deps, needs, failure.missing),
    }
}

/// A function together with the keys of the dependencies that it declares.
/// It accepts every list of handles that has one handle for each key.
#[verifier::reject_recursive_types(V)]
#[verifier::reject_recursive_types(O)]
#[verifier::reject_recursive_types(F)]
pub struct DiFn<V, O, F: Fn(Vec<Arc<V>>) -> O> {
    needs: Vec<TypeKey>,
    body: F,
    marker: PhantomData<(V, O)>,
}

impl<V, O, F: Fn(Vec<Arc<V>>) -> O> DiFn<V, O, F> {
    #[verifier::type_invariant]
    spec fn accepts_resolved(&self) -> bool {
        forall|args: Vec<Arc<V>>|
            args@.len() == self.needs@.len() ==> #[trigger] call_requires(self.body, (args,))
    }

    /// The keys of the declared dependencies, in the order of declaration.
    pub closed spec fn needs(&self) -> Seq<TypeKey> {
        self.needs@
    }

    /// The function that is called with the resolved dependencies.
    pub closed spec fn body(&self) -> F {
        self.body
    }

    /// Binds `body` to the dependencies `needs`.
    pub fn new(needs: Vec<TypeKey>, body: F) -> (f: Self)
        requires
            forall|args: Vec<Arc<V>>|
                args@.len() == needs@.len() ==> #[trigger] call_requires(body, (args,)),
        ensures
            f.needs() == needs@,
            f.body() == body,
    {
        DiFn { needs, body, marker: PhantomData }
    }

    /// Looks up the declared dependencies in `deps` and calls the function
    /// with them.
    pub fn call(&self, deps: &DependencyMap<V>) -> (result: Result<O, ResolutionFailure>)
        ensures
            di_sem::<V, O, F>(self.needs(), self.body(), deps@, result),
    {
        proof {
            use_type_invariant(self);
        }
        match deps.resolve(&self.needs) {
            Ok(args) => {
                let ghost handles = args;
                let output = (self.body)(args);
                assert(resolved(deps@, self.needs(), handles@) && call_ensures(
                    self.body,
                    (handles,),
                    output,
                ));
                Ok(output)
            },
            Err(failure) => Err(failure),
        }
    }
}

} // verus!
