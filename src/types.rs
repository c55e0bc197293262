use vstd::prelude::*;

verus! {

/// A 3-component vector of `f32` values, each held as its IEEE-754 bit pattern.
///
/// The replication layer only stores and forwards positions, so it carries the
/// exact bits that were sampled and never does arithmetic on them.
#[derive(Debug, Clone, Copy, PartialEq, Eq, Structural)]
pub struct Vec3Bits {
    pub x: u32,
    pub y: u32,
    pub z: u32,
}

/// A unit quaternion `(x, y, z, w)` of `f32` values, held as IEEE-754 bit patterns.
#[derive(Debug, Clone, Copy, PartialEq, Eq, Structural)]
pub struct QuatBits {
    pub x: u32,
    pub y: u32,
    pub z: u32,
    pub w: u32,
}

/// Bit pattern of the `f32` value `1.0`.
pub const ONE_BITS: u32 = 0x3f80_0000;

impl Vec3Bits {
    /// The origin `(0.0, 0.0, 0.0)`.
    pub fn zero() -> (r: Vec3Bits)
        ensures
            r == (Vec3Bits { x: 0, y: 0, z: 0 }),
    {
        Vec3Bits { x: 0, y: 0, z: 0 }
    }
}

impl QuatBits {
    /// The identity rotation `(0.0, 0.0, 0.0, 1.0)`.
    pub fn identity() -> (r: QuatBits)
        ensures
            r == (QuatBits { x: 0, y: 0, z: 0, w: ONE_BITS }),
    {
        QuatBits { x: 0, y: 0, z: 0, w: ONE_BITS }
    }
}

/// A UDP endpoint: an IPv4 or IPv6 address with its port.
#[derive(Debug, Clone, Copy, PartialEq, Eq, Structural)]
#[allow(inconsistent_fields)]
pub enum PeerAddr {
    V4 { ip: u32, port: u16 },
    V6 { ip: u128, port: u16, flowinfo: u32, scope_id: u32 },
}

} // verus!
