//! Checkpoints: the places that a lap has to pass, in order.

use crate::util::Position;
use vstd::prelude::*;

verus! {

/// The part that a checkpoint plays on its course.
#[derive(Debug, Clone, Copy, PartialEq, Eq, Structural)]
pub enum Stepname {
    Start,
    Reset,
    End,
    Checkpoint,
}

/// A sphere that counts as reached once the racer is strictly inside it.
/// Centre and radius are in the unit of `Position`.
#[derive(Debug, Clone, Copy, PartialEq, Eq, Structural)]
pub struct Checkpoint {
    /// Place in the order of the course; -1 for the reset checkpoint.
    pub step: i16,
    pub stepname: Stepname,
    pub x: i32,
    pub y: i32,
    pub z: i32,
    pub radius: i32,
}

impl Checkpoint {
    /// A checkpoint at the origin, with the usual radius counted in units.
    pub fn _new() -> (cp: Checkpoint)
        ensures
            cp == (Checkpoint {
                step: 0,
                stepname: Stepname::Checkpoint,
                x: 0,
                y: 0,
                z: 0,
                radius: 15,
            }),
    {
        Checkpoint { step: 0, stepname: Stepname::Checkpoint, x: 0, y: 0, z: 0, radius: 15 }
    }

    /// The centre, as a spec value.
    pub open spec fn centre(&self) -> Position {
        Position { x: self.x, y: self.y, z: self.z }
    }

    /// The centre.
    pub fn point(&self) -> (p: Position)
        ensures
            p == self.centre(),
    {
        Position { x: self.x, y: self.y, z: self.z }
    }
}

impl Default for Checkpoint {
    fn default() -> (cp: Checkpoint)
        ensures
            cp == (Checkpoint {
                step: 0,
                stepname: Stepname::Checkpoint,
                x: 0,
                y: 0,
                z: 0,
                radius: 15,
            }),
    {
        Checkpoint { step: 0, stepname: Stepname::Checkpoint, x: 0, y: 0, z: 0, radius: 15 }
    }
}

} // verus!
