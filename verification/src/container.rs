//! The dependency container: a store of shared values, one for each type
//! key, from which handler bodies take the values they declare.
use crate::cont::share;
use std::collections::HashMap;
use std::sync::Arc;
use vstd::prelude::*;

verus! {

broadcast use vstd::std_specs::hash::group_hash_axioms;

/// The identity of a type of dependency. The application gives each type
/// that it stores a key of its own: the container holds one slot for each.
pub type TypeKey = u64;

/// A declared dependency that the container does not hold.
#[derive(Clone, Copy, Debug, PartialEq, Eq, Structural)]
pub struct ResolutionFailure {
    /// The key of the type for which nothing was inserted.
    pub missing: TypeKey,
}

/// Every declared dependency has a value.
pub open spec fn all_present<V>(deps: Map<TypeKey, V>, needs: Seq<TypeKey>) -> bool {
    forall|i: int| 0 <= i < needs.len() ==> deps.contains_key(#[trigger] needs[i])
}

/// `key` is the first declared dependency, in the order of declaration, that
/// has no value.
pub open spec fn first_missing<V>(deps: Map<TypeKey, V>, needs: Seq<TypeKey>, key: TypeKey) -> bool {
    exists|i: int|
        0 <= i < needs.len() && #[trigger] needs[i] == key && !deps.contains_key(key) && all_present(
            deps,
            needs.take(i),
        )
}

/// `args` are handles to the values of the declared dependencies, one for
/// each and in the order of declaration.
pub open spec fn resolved<V>(deps: Map<TypeKey, V>, needs: Seq<TypeKey>, args: Seq<Arc<V>>) -> bool {
    &&& args.len() == needs.len()
    &&& forall|i: int| 0 <= i < needs.len() ==> *#[trigger] args[i] == deps[needs[i]]
}

/// What looking up `key` gives: the value stored under it, or the failure
/// that names `key`.
pub open spec fn lookup<V>(deps: Map<TypeKey, V>, key: TypeKey) -> Result<V, ResolutionFailure> {
    if deps.contains_key(key) {
        Ok(deps[key])
    } else {
        Err(ResolutionFailure { missing: key })
    }
}

/// A store of shared values, at most one for each type key.
///
/// The application fills a container before a dispatch and hands it to the
/// tree as the input. Handlers read it and never change it.
#[derive(Debug, PartialEq)]
pub struct DependencyMap<V> {
    slots: HashMap<TypeKey, Arc<V>>,
}

impl<V> DependencyMap<V> {
    /// The value stored under each key.
    pub closed spec fn view(&self) -> Map<TypeKey, V> {
        Map::new(|key: TypeKey| self.slots@.contains_key(key), |key: TypeKey| *self.slots@[key])
    }

    /// Makes an empty container.
    pub fn new() -> (deps: Self)
        ensures
            deps@ == Map::<TypeKey, V>::empty(),
    {
        let deps = DependencyMap { slots: HashMap::new() };
        assert(deps@ =~= Map::<TypeKey, V>::empty());
        deps
    }

    /// Stores `value` under `key` and returns a handle to the value that was
    /// stored there before, if there was one. The latest insertion wins.
    pub fn insert(&mut self, key: TypeKey, value: V) -> (prior: Option<Arc<V>>)
        ensures
            final(self)@ == old(self)@.insert(key, value),
            match prior {
                Some(handle) => old(self)@.contains_key(key) && *handle == old(self)@[key],
                None => !old(self)@.contains_key(key),
            },
    {
        let prior = self.slots.insert(key, Arc::new(value));
        assert(self@ =~= old(self)@.insert(key, value));
        prior
    }

    /// Returns a handle to the value stored under `key`, or the failure that
    /// names `key` if nothing was inserted under it.
    pub fn get(&self, key: TypeKey) -> (found: Result<Arc<V>, ResolutionFailure>)
        ensures
            match found {
                Ok(handle) => lookup(self@, key) == Ok::<V, ResolutionFailure>(*handle),
                Err(failure) => lookup(self@, key) == Err::<V, ResolutionFailure>(failure),
            },
    {
        match self.slots.get(&key) {
            Some(handle) => Ok(share(handle)),
            None => Err(ResolutionFailure { missing: key }),
        }
    }

    /// Whether a value is stored under `key`.
    pub fn contains(&self, key: TypeKey) -> (present: bool)
        ensures
            present == self@.contains_key(key),
    {
        self.slots.contains_key(&key)
    }

    /// The number of values stored.
    pub fn len(&self) -> (n: usize)
        ensures
            n == self@.len(),
    {
        proof {
            self.lemma_same_domain();
        }
        self.slots.len()
    }

    /// Whether nothing is stored.
    pub fn is_empty(&self) -> (empty: bool)
        ensures
            empty == (self@.len() == 0),
    {
        proof {
            self.lemma_same_domain();
        }
        self.slots.len() == 0
    }

    proof fn lemma_same_domain(&self)
        ensures
            self@.dom() == self.slots@.dom(),
            self@.dom().finite(),
    {
        assert(self@.dom() =~= self.slots@.dom());
    }

    /// Looks up the declared dependencies in the order of declaration.
    ///
    /// Returns a handle for each if every one of them is present, and else the
    /// failure that names the first that is missing.
    pub fn resolve(&self, needs: &Vec<TypeKey>) -> (found: Result<Vec<Arc<V>>, ResolutionFailure>)
        ensures
            match found {
                Ok(args) => all_present(self@, needs@) && resolved(self@, needs@, args@),
                Err(failure) => first_missing(self@, needs@, failure.missing),
            },
    {
        let mut args: Vec<Arc<V>> = Vec::new();
        let mut i: usize = 0;
        while i < needs.len()
            invariant
                i <= needs.len(),
                all_present(self@, needs@.take(i as int)),
                resolved(self@, needs@.take(i as int), args@),
            decreases needs.len() - i,
        {
            match self.get(needs[i]) {
                Ok(handle) => {
                    args.push(handle);
                },
                Err(failure) => {
                    return Err(failure);
                },
            }
            i += 1;
        }
        assert(needs@.take(i as int) =~= needs@);
        Ok(args)
    }
}

impl<V> Clone for DependencyMap<V> {
    /// The clone shares the stored values.
    fn clone(&self) -> (res: Self)
        ensures
            res@ == self@,
    {
        let res = DependencyMap { slots: self.slots.clone() };
        assert(res@ =~= self@);
        res
    }
}

} // verus!
