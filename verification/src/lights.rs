//! The frame lighting: lights submitted per frame, collected for the plan
//! (disabled ones filtered out, truncated to the GPU array with the first
//! submitted winning), and the caster of directional shadows.

use vstd::prelude::*;
use crate::floats::{finite, finite_non_negative, finite_positive, is_finite, is_finite_non_negative, is_finite_positive};
use crate::math::{Color, Vec3};

verus! {

/// The bits of `f32` π/2, the widest spot cone half-angle.
pub const HALF_PI_BITS: u32 = 0x3FC9_0FDB;

/// A usable direction: finite, not the zero vector.
pub open spec fn is_direction(v: Vec3) -> bool {
    &&& is_finite(v.x) && is_finite(v.y) && is_finite(v.z)
    &&& !(crate::floats::is_zero(v.x) && crate::floats::is_zero(v.y) && crate::floats::is_zero(v.z))
}

/// A finite position.
pub open spec fn is_position(v: Vec3) -> bool {
    is_finite(v.x) && is_finite(v.y) && is_finite(v.z)
}

/// A spot cone: `0 <= inner < outer <= π/2`, both finite.
pub open spec fn is_cone(inner: u32, outer: u32) -> bool {
    &&& is_finite_non_negative(inner)
    &&& is_finite_positive(outer)
    &&& outer <= HALF_PI_BITS
    &&& (inner == 0x8000_0000 || inner < outer)
}

/// A light the renderer accepts: a finite non-negative color and
/// intensity; a usable direction; a finite position and a finite positive
/// range; a proper cone.
pub open spec fn light_valid(l: Light) -> bool {
    &&& is_finite_non_negative(l.color.r) && is_finite_non_negative(l.color.g) && is_finite_non_negative(l.color.b)
    &&& is_finite_non_negative(l.intensity)
    &&& match l.shape {
        LightShape::Directional { direction } => is_direction(direction),
        LightShape::Point { position, range } => is_position(position) && is_finite_positive(range),
        LightShape::Spot { position, direction, range, inner_angle, outer_angle } => is_position(position)
            && is_direction(direction) && is_finite_positive(range) && is_cone(inner_angle, outer_angle),
    }
}

fn direction_ok(v: Vec3) -> (r: bool)
    ensures
        r == is_direction(v),
{
    let zero = |b: u32| -> (z: bool)
        ensures
            z == crate::floats::is_zero(b),
        { b == 0 || b == 0x8000_0000 };
    finite(v.x) && finite(v.y) && finite(v.z) && !(zero(v.x) && zero(v.y) && zero(v.z))
}

/// Whether the renderer accepts a light.
pub fn valid_light(l: &Light) -> (r: bool)
    ensures
        r == light_valid(*l),
{
    let colors = finite_non_negative(l.color.r) && finite_non_negative(l.color.g) && finite_non_negative(l.color.b);
    if !colors || !finite_non_negative(l.intensity) {
        return false;
    }
    match l.shape {
        LightShape::Directional { direction } => direction_ok(direction),
        LightShape::Point { position, range } => finite(position.x) && finite(position.y) && finite(position.z)
            && finite_positive(range),
        LightShape::Spot { position, direction, range, inner_angle, outer_angle } => {
            let cone = finite_non_negative(inner_angle) && finite_positive(outer_angle) && outer_angle <= HALF_PI_BITS
                && (inner_angle == 0x8000_0000 || inner_angle < outer_angle);
            finite(position.x) && finite(position.y) && finite(position.z) && direction_ok(direction)
                && finite_positive(range) && cone
        },
    }
}

/// The most lights the GPU array holds.
pub const MAX_LIGHTS: usize = 16;

/// The kind of a light and its shape parameters (bit patterns).
#[derive(Clone, Copy, Debug)]
pub enum LightShape {
    Directional { direction: Vec3 },
    Point { position: Vec3, range: u32 },
    Spot { position: Vec3, direction: Vec3, range: u32, inner_angle: u32, outer_angle: u32 },
}

/// A light submitted for the frame.
#[derive(Clone, Copy, Debug)]
pub struct Light {
    pub shape: LightShape,
    pub color: Color,
    pub intensity: u32,
    pub enabled: bool,
}

/// The lighting of a frame: the ambient term and the collected lights.
#[derive(Debug)]
pub struct FrameLights {
    pub ambient_color: Color,
    pub ambient_intensity: u32,
    pub lights: Vec<Light>,
}

impl Light {
    /// An enabled directional light shining along `direction`.
    pub fn directional(direction: Vec3, color: Color, intensity: u32) -> (light: Light)
        ensures
            light == (Light { shape: LightShape::Directional { direction }, color, intensity, enabled: true }),
    {
        Light { shape: LightShape::Directional { direction }, color, intensity, enabled: true }
    }

    /// An enabled point light at `position` reaching `range`.
    pub fn point(position: Vec3, color: Color, intensity: u32, range: u32) -> (light: Light)
        ensures
            light == (Light { shape: LightShape::Point { position, range }, color, intensity, enabled: true }),
    {
        Light { shape: LightShape::Point { position, range }, color, intensity, enabled: true }
    }

    /// An enabled spot light at `position` shining along `direction`.
    pub fn spot(
        position: Vec3,
        direction: Vec3,
        color: Color,
        intensity: u32,
        range: u32,
        inner_angle: u32,
        outer_angle: u32,
    ) -> (light: Light)
        ensures
            light == (Light {
                shape: LightShape::Spot { position, direction, range, inner_angle, outer_angle },
                color,
                intensity,
                enabled: true,
            }),
    {
        Light { shape: LightShape::Spot { position, direction, range, inner_angle, outer_angle }, color, intensity, enabled: true }
    }

    /// Switches the light on or off.
    pub fn set_enabled(&mut self, enabled: bool)
        ensures
            *final(self) == (Light { enabled, ..*old(self) }),
    {
        self.enabled = enabled;
    }
}

/// The enabled lights, in submission order.
pub open spec fn enabled_lights(lights: Seq<Light>) -> Seq<Light>
    decreases lights.len(),
{
    if lights.len() == 0 {
        Seq::empty()
    } else if lights.last().enabled {
        enabled_lights(lights.drop_last()).push(lights.last())
    } else {
        enabled_lights(lights.drop_last())
    }
}

/// The collected lights: the first `MAX_LIGHTS` enabled ones.
pub open spec fn collected(lights: Seq<Light>) -> Seq<Light> {
    let enabled = enabled_lights(lights);
    if enabled.len() > MAX_LIGHTS {
        enabled.subrange(0, MAX_LIGHTS as int)
    } else {
        enabled
    }
}

/// The position of the first directional light, if any.
pub open spec fn first_directional(lights: Seq<Light>) -> Option<int>
    decreases lights.len(),
{
    if lights.len() == 0 {
        None
    } else {
        match first_directional(lights.drop_last()) {
            Some(i) => Some(i),
            None => if lights.last().shape is Directional {
                Some(lights.len() - 1)
            } else {
                None
            },
        }
    }
}

/// The first directional light is a position of the lights.
pub proof fn lemma_first_directional_bound(lights: Seq<Light>)
    ensures
        first_directional(lights) matches Some(i) ==> 0 <= i < lights.len() && lights[i].shape is Directional,
    decreases lights.len(),
{
    if lights.len() > 0 {
        lemma_first_directional_bound(lights.drop_last());
    }
}

proof fn lemma_enabled_len(lights: Seq<Light>)
    ensures
        enabled_lights(lights).len() <= lights.len(),
    decreases lights.len(),
{
    if lights.len() > 0 {
        lemma_enabled_len(lights.drop_last());
    }
}

/// The lights collected from `submitted`, and the number of enabled
/// lights submitted (before truncation).
pub fn collect_lights(submitted: &Vec<Light>) -> (result: (Vec<Light>, usize))
    ensures
        result.0@ == collected(submitted@),
        result.1 == enabled_lights(submitted@).len(),
{
    let mut enabled: Vec<Light> = Vec::new();
    let mut i: usize = 0;
    while i < submitted.len()
        invariant
            i <= submitted@.len(),
            enabled@ == enabled_lights(submitted@.subrange(0, i as int)),
        decreases submitted@.len() - i,
    {
        proof {
            assert(submitted@.subrange(0, i + 1).drop_last() =~= submitted@.subrange(0, i as int));
            lemma_enabled_len(submitted@.subrange(0, i as int));
        }
        if submitted[i].enabled {
            enabled.push(submitted[i]);
        }
        i = i + 1;
    }
    proof {
        assert(submitted@.subrange(0, i as int) =~= submitted@);
    }
    let count = enabled.len();
    if enabled.len() > MAX_LIGHTS {
        enabled.truncate(MAX_LIGHTS);
    }
    (enabled, count)
}

/// The position of the first directional light of the collection.
pub fn shadow_light_index(lights: &Vec<Light>) -> (index: Option<usize>)
    ensures
        match first_directional(lights@) {
            Some(i) => index == Some(i as usize),
            None => index is None,
        },
{
    let mut i: usize = 0;
    while i < lights.len()
        invariant
            i <= lights@.len(),
            first_directional(lights@.subrange(0, i as int)) is None,
        decreases lights@.len() - i,
    {
        proof {
            assert(lights@.subrange(0, i + 1).drop_last() =~= lights@.subrange(0, i as int));
        }
        if let LightShape::Directional { .. } = lights[i].shape {
            proof {
                lemma_first_directional_prefix(lights@, i as int);
            }
            return Some(i);
        }
        i = i + 1;
    }
    proof {
        assert(lights@.subrange(0, i as int) =~= lights@);
    }
    None
}

proof fn lemma_first_directional_prefix(lights: Seq<Light>, i: int)
    requires
        0 <= i < lights.len(),
        first_directional(lights.subrange(0, i)) is None,
        lights[i].shape is Directional,
    ensures
        first_directional(lights) == Some(i),
    decreases lights.len(),
{
    assert(lights.subrange(0, i + 1).drop_last() =~= lights.subrange(0, i));
    if lights.len() == i + 1 {
        assert(lights.subrange(0, i + 1) =~= lights);
    } else {
        assert(lights.drop_last().subrange(0, i) =~= lights.subrange(0, i));
        lemma_first_directional_prefix(lights.drop_last(), i);
    }
}

} // verus!
