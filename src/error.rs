use vstd::prelude::*;

verus! {

/// The fatal conditions of the entity-component-system core.
#[derive(Clone, Copy, Debug, PartialEq, Eq, Structural)]
pub enum EcsError {
    /// The allocator has no free index left and may not mint a new one.
    CapacityExceeded,
    /// An identifier that is not currently live was deallocated or destroyed.
    NotLive,
    /// No prefab document has the requested name.
    UnknownPrefab,
    /// A prefab document is not a JSON object.
    MalformedPrefab,
}

} // verus!
