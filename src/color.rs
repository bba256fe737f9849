//! Colors and their 8-bit encoding.
use vstd::prelude::*;
use crate::fixed::{fx_sqrt, fx_sqrt_spec, in_range, ONE};
use crate::interval::Interval;
use crate::vec3::Vec3;

verus! {

/// The largest channel intensity before quantizing: 0.999 in fixed point.
pub const INTENSITY_MAX: i64 = 65470;

/// A color as three 8-bit channels.
#[derive(Clone, Copy, Debug, PartialEq, Eq, Structural)]
pub struct ColorBytes {
    pub r: u8,
    pub g: u8,
    pub b: u8,
}

impl ColorBytes {
    pub fn r(&self) -> (r: u8)
        ensures
            r == self.r,
    {
        self.r
    }

    pub fn g(&self) -> (r: u8)
        ensures
            r == self.g,
    {
        self.g
    }

    pub fn b(&self) -> (r: u8)
        ensures
            r == self.b,
    {
        self.b
    }
}

/// Gamma 2: the square root of a positive linear value, else zero.
pub open spec fn linear_to_gamma_spec(linear_component: int) -> int {
    fx_sqrt_spec(linear_component)
}

/// A linear channel as a byte: gamma-encoded, clamped to `[0, 0.999]`,
/// multiplied by 256 and truncated.
pub open spec fn channel_byte(linear_component: int) -> int {
    Interval { min: 0, max: INTENSITY_MAX }.clamp_spec(linear_to_gamma_spec(linear_component)) * 256 / ONE as int
}

/// The bytes that encode the linear color `c`.
pub open spec fn color_bytes_spec(c: Vec3) -> ColorBytes {
    ColorBytes {
        r: channel_byte(c.x as int) as u8,
        g: channel_byte(c.y as int) as u8,
        b: channel_byte(c.z as int) as u8,
    }
}

pub fn linear_to_gamma(linear_component: i64) -> (r: i64)
    requires
        in_range(linear_component as int),
    ensures
        r == linear_to_gamma_spec(linear_component as int),
        r >= 0,
{
    fx_sqrt(linear_component)
}

fn channel_to_byte(linear_component: i64) -> (r: u8)
    requires
        in_range(linear_component as int),
    ensures
        r == channel_byte(linear_component as int),
{
    let intensity = Interval::new(0, INTENSITY_MAX);
    let c = intensity.clamp(linear_to_gamma(linear_component));
    (c * 256 / ONE) as u8
}

/// Encodes a linear color as bytes, channel by channel.
pub fn color_to_string(color: &Vec3) -> (r: ColorBytes)
    requires
        color.wf(),
    ensures
        r.r == channel_byte(color.x as int),
        r.g == channel_byte(color.y as int),
        r.b == channel_byte(color.z as int),
        r == color_bytes_spec(*color),
{
    ColorBytes {
        r: channel_to_byte(color.x()),
        g: channel_to_byte(color.y()),
        b: channel_to_byte(color.z()),
    }
}

} // verus!
