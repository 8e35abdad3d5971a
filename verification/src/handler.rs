//! Handlers, their constructors and their composition.
pub mod endpoint;
pub mod engine;
pub mod filter;
pub mod inspect;

pub use endpoint::{endpoint, Endpoint};
pub use engine::{entry, from_fn, Handler};
pub use filter::filter;
pub use inspect::inspect;
