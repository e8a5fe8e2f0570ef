//! Native bridge of a desktop application: a registry of named commands that
//! the embedded interface invokes, and the composition of the capability
//! providers that the runtime is started with.

pub mod greeting;
pub mod registry;
pub mod composer;
