//! Opaque integer handles naming the entities that live on the map.
//!
//! The entity registry itself is an external collaborator; the map only
//! stores these handles in its occupant lists, never owning references.

use vstd::prelude::*;

verus! {

/// An opaque handle for an entity in the surrounding registry.
#[derive(Clone, Copy, PartialEq, Eq, Structural, Debug, Hash)]
pub struct EntityId(pub u64);

} // verus!
