//! A dependency-injection container: a static graph of nodes (constants and
//! services, each with a constructor strategy and an ordered argument list) is
//! turned into an [`engine::Injector`] that resolves any node to a constructed
//! value on demand, caching singletons and detecting circular dependency
//! chains instead of looping forever.

pub mod engine;
pub mod graph;
pub mod slot;

pub use engine::InjectError;
pub use engine::Injector;
pub use graph::Ctor;
pub use graph::CtorCall;
pub use graph::Graph;
pub use graph::Node;
pub use graph::NodeKind;
pub use slot::Slot;

use vstd::prelude::*;

verus! {

/// A declared node: its associated type is the value type the node produces.
pub trait Dep {
    type DependecyType;
}

/// Statically dispatched resolution: an injector that can resolve the node
/// `T` to a value of `T`'s declared type.
pub trait Inject<T: Dep> {
    fn inject(&self) -> T::DependecyType;
}

} // verus!
