//! Trees of responsibility: handlers that either finish the input they are
//! given or hand it on unchanged, and the operators that compose them.
//!
//! A [`Handler`] takes an input and a continuation. It terminates with an
//! output (`ControlFlow::Break`) or declines and gives the input back
//! (`ControlFlow::Continue`). Handlers are combined with [`Handler::chain`]
//! and [`Handler::branch`] into a tree rooted at [`entry`], and one
//! evaluation of the tree is a call of [`Handler::dispatch`].
//!
//! The input of a tree is usually a [`DependencyMap`]: a store of shared
//! values, one for each type key, which the application fills before a
//! dispatch. A [`DiFn`] is a function together with the keys of the values it
//! needs; [`endpoint`], [`filter`] and [`inspect`] make handlers of such
//! functions. A dependency that is missing ends the dispatch with a
//! [`ResolutionFailure`] that names it.
//!
//! ```text
//! const NUM: TypeKey = 0;
//!
//! let tree = entry()
//!     .branch(filter(DiFn::new(vec![NUM], |n| *n[0] == 5)).endpoint(DiFn::new(vec![], |_| "five")))
//!     .branch(filter(DiFn::new(vec![NUM], |n| *n[0] > 2)).endpoint(DiFn::new(vec![], |_| "gt")));
//!
//! let mut container = DependencyMap::new();
//! container.insert(NUM, 3);
//! assert_eq!(tree.dispatch(container), ControlFlow::Break(Ok("gt")));
//! ```
//!
//! # The model
//!
//! What a handler does is a relation between its input, the possible
//! outcomes of its continuation, and its own outcome ([`handler::engine::Sem`]).
//! Every constructor and operator states the relation of the handler it
//! builds, [`Handler::execute`] and [`Handler::dispatch`] return an outcome
//! that the relation admits, and the laws of the operators are proved over
//! these relations in [`laws`].
pub mod cont;
pub mod container;
pub mod di;
pub mod handler;
pub mod laws;

pub use cont::Cont;
pub use container::{DependencyMap, ResolutionFailure, TypeKey};
pub use di::DiFn;
pub use handler::{endpoint, entry, filter, from_fn, inspect, Endpoint, Handler};
