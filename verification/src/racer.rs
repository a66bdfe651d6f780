//! The racer as the game reports it.

use crate::util::Position;
use vstd::prelude::*;

verus! {

/// The racer: where the racer is, and the name of the character.
pub struct Racer {
    pub position: Position,
    pub name: String,
}

impl Racer {
    /// A nameless racer at the origin.
    pub fn new() -> (racer: Racer)
        ensures
            racer.position == (Position { x: 0, y: 0, z: 0 }),
            racer.name@ == Seq::<char>::empty(),
    {
        Racer { position: Position::new(), name: String::new() }
    }
}

} // verus!
