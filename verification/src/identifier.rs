//! Identities.

use crate::player::Character;
use crate::primitives::Address;
use crate::world::World;
use vstd::prelude::*;

verus! {

/// What has an identity by which it is told apart from the others of its kind.
pub trait Identifier {
    type Id;

    /// The identity.
    fn identifier(&self) -> Self::Id;
}

impl<N: Copy, B> Identifier for Character<N, B> {
    type Id = N;

    /// A character is identified by its name.
    fn identifier(&self) -> (id: N)
        ensures
            id == self.name,
    {
        self.name
    }
}

impl Identifier for World {
    type Id = Address;

    /// A replica is identified by its node's own participant.
    fn identifier(&self) -> (id: Address)
        ensures
            id == self@.identifier,
    {
        World::identifier(self)
    }
}

} // verus!
