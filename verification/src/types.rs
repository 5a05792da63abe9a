//! Shared value types: caller identities and spatial vectors.

use vstd::prelude::*;

verus! {

/// Opaque key identifying a player. Every reducer call arrives already
/// attributed to a caller identity; the library trusts this value and uses
/// it only for authorization and inventory attribution.
#[derive(Clone, Copy, PartialEq, Eq, Structural, Debug, Hash)]
pub struct Identity(pub u64);

/// A 3-component world-space vector. The components are opaque scalar
/// encodings supplied by the spatial system (IEEE-754 bit patterns); the
/// library stores and returns them but never interprets them numerically.
#[derive(Clone, Copy, PartialEq, Eq, Structural, Debug)]
pub struct DbVector3 {
    pub x: u32,
    pub y: u32,
    pub z: u32,
}

impl Default for DbVector3 {
    fn default() -> (r: Self)
        ensures
            r == (DbVector3 { x: 0, y: 0, z: 0 }),
    {
        DbVector3 { x: 0, y: 0, z: 0 }
    }
}

/// A 2-component vector, used for look directions; components are opaque
/// scalar encodings, as in [`DbVector3`].
#[derive(Clone, Copy, PartialEq, Eq, Structural, Debug)]
pub struct DbVector2 {
    pub x: u32,
    pub y: u32,
}

impl Default for DbVector2 {
    fn default() -> (r: Self)
        ensures
            r == (DbVector2 { x: 0, y: 0 }),
    {
        DbVector2 { x: 0, y: 0 }
    }
}

} // verus!
