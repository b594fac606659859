//! Timestamped three-axis readings. The two variants have the same shape but
//! stay distinct nominal types, so the serialized output keeps them apart.

use vstd::prelude::*;

use crate::digits::FRAC_DENOM;

verus! {

/// One accelerometer reading: a nanosecond count within the second and three
/// axis magnitudes, each a fixed-point fraction `m / FRAC_DENOM`.
#[derive(Clone, Copy, PartialEq, Eq, Structural, Debug)]
pub struct Acceleration {
    pub t: u32,
    pub x: u32,
    pub y: u32,
    pub z: u32,
}

/// One gyroscope reading, shaped exactly like `Acceleration`.
#[derive(Clone, Copy, PartialEq, Eq, Structural, Debug)]
pub struct Gyroscope {
    pub t: u32,
    pub x: u32,
    pub y: u32,
    pub z: u32,
}

impl Acceleration {
    /// All three magnitudes are in range.
    pub open spec fn valid(self) -> bool {
        self.x < FRAC_DENOM && self.y < FRAC_DENOM && self.z < FRAC_DENOM
    }

    /// A zeroed reading stamped `t`.
    pub fn new(t: u32) -> (r: Acceleration)
        ensures
            r == (Acceleration { t, x: 0, y: 0, z: 0 }),
    {
        Acceleration { t, x: 0, y: 0, z: 0 }
    }

    /// Overwrites the reading in place.
    pub fn save_data(&mut self, t: u32, x: u32, y: u32, z: u32)
        ensures
            *final(self) == (Acceleration { t, x, y, z }),
    {
        self.t = t;
        self.x = x;
        self.y = y;
        self.z = z;
    }
}

impl Gyroscope {
    /// All three magnitudes are in range.
    pub open spec fn valid(self) -> bool {
        self.x < FRAC_DENOM && self.y < FRAC_DENOM && self.z < FRAC_DENOM
    }

    /// A zeroed reading stamped `t`.
    pub fn new(t: u32) -> (r: Gyroscope)
        ensures
            r == (Gyroscope { t, x: 0, y: 0, z: 0 }),
    {
        Gyroscope { t, x: 0, y: 0, z: 0 }
    }

    /// Overwrites the reading in place.
    pub fn save_data(&mut self, t: u32, x: u32, y: u32, z: u32)
        ensures
            *final(self) == (Gyroscope { t, x, y, z }),
    {
        self.t = t;
        self.x = x;
        self.y = y;
        self.z = z;
    }
}

} // verus!
