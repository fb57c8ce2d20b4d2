//! An entity-component-system core: a generational slot allocator, typed
//! component stores keyed by entity identifiers, a world that defers
//! structural changes to well-defined points, and a scheduler that keeps the
//! set of matching entities of every registered system up to date.

pub mod component;
pub mod ecs;
pub mod entity;
pub mod entity_set;
pub mod error;
pub mod system;
pub mod resources;
