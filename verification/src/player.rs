//! The participants of the world.

use crate::movements::Position;
use vstd::prelude::*;

verus! {

/// A participant of the world: who it is, what it owns and where it stands.
#[derive(Debug, Clone, Copy, PartialEq, Eq)]
pub struct Character<N, B> {
    pub name: N,
    pub balance: B,
    pub position: Position,
}

impl<N, B> Character<N, B> {
    /// A character with the given name and balance, standing at `position`.
    pub fn new(name: N, balance: B, position: (i32, i32)) -> (res: Self)
        ensures
            res.name == name,
            res.balance == balance,
            res.position == (Position { x: position.0, y: position.1 }),
    {
        let position = Position::new(position.0, position.1);
        Character { name, balance, position }
    }

    /// The character's name.
    pub fn name(&self) -> (name: &N)
        ensures
            *name == self.name,
    {
        &self.name
    }

    /// The character's balance.
    pub fn balance(&self) -> (balance: &B)
        ensures
            *balance == self.balance,
    {
        &self.balance
    }

    /// Where the character stands.
    pub fn position(&self) -> (position: Position)
        ensures
            position == self.position,
    {
        self.position
    }
}

} // verus!
