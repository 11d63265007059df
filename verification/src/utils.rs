//! The parameters of a simulation.

use vstd::prelude::*;
use crate::fixed::Fixed;

verus! {

/// The parameters of a simulation. They stay the same for the whole run and
/// are handed to every call that needs them.
#[derive(Clone, Copy, Debug)]
pub struct Config {
    /// The side of the cube in which the flock starts.
    pub size: usize,
    /// The number of boids.
    pub count: usize,
    /// The weight of the alignment rule.
    pub alignment: Fixed,
    /// The weight of the cohesion rule.
    pub cohesion: Fixed,
    /// The weight of the roosting rule.
    pub roosting: Fixed,
    /// The weight of the separation rule.
    pub separation: Fixed,
    /// The distance below which one boid senses another.
    pub neighbourhood: Fixed,
    /// The distance up to which one boid avoids another.
    pub separation_range: Fixed,
    /// The greatest speed that steering alone gives a boid.
    pub velocity: Fixed,
    /// The greatest strength of the wind.
    pub wind: Fixed,
    /// The greatest share of a vector's length that may point up or down.
    pub delta_z_max: Fixed,
}

impl Config {
    /// The parameters of the customary flock: 1500 boids in a cube of side
    /// 800, with weights 1, 0.2, 0.1 and 15 for alignment, cohesion,
    /// roosting and separation, sensing distances 50 and 5, speed 4, wind
    /// 0.2 and slope 0.5.
    pub open spec fn spec_default() -> Config {
        Config {
            size: 800,
            count: 1500,
            alignment: Fixed { raw: 65536 },
            cohesion: Fixed { raw: 13107 },
            roosting: Fixed { raw: 6553 },
            separation: Fixed { raw: 983040 },
            neighbourhood: Fixed { raw: 3276800 },
            separation_range: Fixed { raw: 327680 },
            velocity: Fixed { raw: 262144 },
            wind: Fixed { raw: 13107 },
            delta_z_max: Fixed { raw: 32768 },
        }
    }
}

impl Default for Config {
    fn default() -> (c: Config)
        ensures
            c == Config::spec_default(),
    {
        Config {
            size: 800,
            count: 1500,
            alignment: Fixed::from_raw(65536),
            cohesion: Fixed::from_raw(13107),
            roosting: Fixed::from_raw(6553),
            separation: Fixed::from_raw(983040),
            neighbourhood: Fixed::from_raw(3276800),
            separation_range: Fixed::from_raw(327680),
            velocity: Fixed::from_raw(262144),
            wind: Fixed::from_raw(13107),
            delta_z_max: Fixed::from_raw(32768),
        }
    }
}

} // verus!
