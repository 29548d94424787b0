//! The configuration of the terrain, and the request to change one sample.
use vstd::prelude::*;
use crate::coord::Coord;
use crate::density::{Density, DEFAULT_ISO_BITS, MAX_RESOLUTION};
use crate::order::MAX_SPAWN_RADIUS;

verus! {

/// What the terrain is configured with.
#[derive(Clone, Copy, Debug, PartialEq, Eq, Structural)]
pub struct TerrainSettings {
    /// Number of cubes along one axis of a chunk.
    pub resolution: usize,
    /// The density at which the surface lies.
    pub iso_level: Density,
    /// How far the desired chunks reach from the observer's chunk, in chunks.
    pub spawn_radius: i32,
    /// How many chunks may be made in one cycle.
    pub max_spawns_per_cycle: usize,
}

impl TerrainSettings {
    /// Whether the settings can be used: the resolution is at least 1 and the
    /// radius is not negative, and both are within the limits that keep all
    /// counts inside `usize`.
    pub open spec fn valid(self) -> bool {
        &&& 1 <= self.resolution <= MAX_RESOLUTION
        &&& 0 <= self.spawn_radius <= MAX_SPAWN_RADIUS
    }

    /// Decides whether the settings can be used.
    pub fn is_valid(&self) -> (b: bool)
        ensures
            b == self.valid(),
    {
        1 <= self.resolution && self.resolution <= MAX_RESOLUTION && 0 <= self.spawn_radius
            && self.spawn_radius <= MAX_SPAWN_RADIUS
    }
}

impl Default for TerrainSettings {
    /// Sixteen cubes per axis, the surface at one half, a radius of eight
    /// chunks and one new chunk per cycle.
    fn default() -> (settings: TerrainSettings)
        ensures
            settings == (TerrainSettings {
                resolution: 16,
                iso_level: Density { bits: DEFAULT_ISO_BITS },
                spawn_radius: 8,
                max_spawns_per_cycle: 1,
            }),
            settings.valid(),
    {
        TerrainSettings {
            resolution: 16,
            iso_level: Density { bits: DEFAULT_ISO_BITS },
            spawn_radius: 8,
            max_spawns_per_cycle: 1,
        }
    }
}

/// A request to set the density at one world cell.
#[derive(Clone, Copy, Debug, PartialEq, Eq, Structural)]
pub struct TerrainCellEvent {
    pub world_pos: Coord,
    pub value: Density,
}

} // verus!
