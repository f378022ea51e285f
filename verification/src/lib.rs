//! Plugin hooks of a module bundler, with their contracts: a hygiene scope
//! that hands out marks, a registry of the source types plugins claim, the
//! stylesheet plugin that renders the style modules of a chunk into one
//! asset, and the resolver of declarative copy patterns.

pub mod copy;
pub mod hygiene;
pub mod module;
pub mod plugin;
pub mod registry;
pub mod render;
pub mod resolve;
pub mod text;
