//! The camera as the game reports it.

use crate::util::Position;
use vstd::prelude::*;

verus! {

/// The camera of the game.
pub struct Camera {
    pub position: Position,
}

impl Camera {
    /// A camera at the origin.
    pub fn new() -> (camera: Camera)
        ensures
            camera.position == (Position { x: 0, y: 0, z: 0 }),
    {
        Camera { position: Position::new() }
    }
}

} // verus!
