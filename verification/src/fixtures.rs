//! Fixture definitions and the resolution of their dependencies.
pub mod ground;
pub mod laws;
pub mod lookup;
pub mod model;
pub mod resolver;
