//! One reading of the game's shared state, as plain values.

use crate::camera::Camera;
use crate::racer::Racer;
use crate::util::Position;
use vstd::prelude::*;

verus! {

/// What one reading of the game gives: the racer, the camera and the map.
pub struct GW2Data {
    pub racer: Racer,
    pub camera: Camera,
    pub map_id: u32,
}

impl GW2Data {
    /// The reading that stands before the game has been read: everything at
    /// the origin, no name, map 0.
    pub fn new() -> (data: GW2Data)
        ensures
            data.racer.position == (Position { x: 0, y: 0, z: 0 }),
            data.racer.name@ == Seq::<char>::empty(),
            data.camera.position == (Position { x: 0, y: 0, z: 0 }),
            data.map_id == 0,
    {
        GW2Data { racer: Racer::new(), camera: Camera::new(), map_id: 0 }
    }
}

} // verus!
