//! Texture formats and kinds, and the exact byte cost of a texture: every
//! mip level of every layer.

use vstd::prelude::*;

verus! {

/// The pixel formats of textures and render targets.
#[derive(Clone, Copy, Debug, PartialEq, Eq, Structural)]
pub enum TextureFormat {
    R8Unorm,
    Rg8Unorm,
    Rgba8Unorm,
    Rgba8UnormSrgb,
    Bgra8UnormSrgb,
    Rgba16Float,
    Rgba32Float,
}

/// The shape of a texture.
#[derive(Clone, Copy, Debug, PartialEq, Eq, Structural)]
pub enum TextureKind {
    /// A plain 2D texture.
    D2,
    /// A cubemap (six square faces).
    Cube,
}

/// The bytes of one pixel of a format.
pub open spec fn spec_bytes_per_pixel(format: TextureFormat) -> nat {
    match format {
        TextureFormat::R8Unorm => 1,
        TextureFormat::Rg8Unorm => 2,
        TextureFormat::Rgba8Unorm => 4,
        TextureFormat::Rgba8UnormSrgb => 4,
        TextureFormat::Bgra8UnormSrgb => 4,
        TextureFormat::Rgba16Float => 8,
        TextureFormat::Rgba32Float => 16,
    }
}

/// The number of layers of a kind (6 faces for a cubemap).
pub open spec fn spec_layers(kind: TextureKind) -> nat {
    match kind {
        TextureKind::D2 => 1,
        TextureKind::Cube => 6,
    }
}

impl TextureFormat {
    /// The bytes of one pixel.
    pub fn bytes_per_pixel(&self) -> (bytes: u32)
        ensures
            bytes == spec_bytes_per_pixel(*self),
    {
        match self {
            TextureFormat::R8Unorm => 1,
            TextureFormat::Rg8Unorm => 2,
            TextureFormat::Rgba8Unorm => 4,
            TextureFormat::Rgba8UnormSrgb => 4,
            TextureFormat::Bgra8UnormSrgb => 4,
            TextureFormat::Rgba16Float => 8,
            TextureFormat::Rgba32Float => 16,
        }
    }
}

impl TextureKind {
    /// The number of layers.
    pub fn layers(&self) -> (layers: u32)
        ensures
            layers == spec_layers(*self),
    {
        match self {
            TextureKind::D2 => 1,
            TextureKind::Cube => 6,
        }
    }
}

/// The extent of a dimension at a mip level: halved per level, never
/// below one.
pub open spec fn level_extent(extent: nat, level: nat) -> nat
    decreases level,
{
    if level == 0 {
        extent
    } else {
        let previous = level_extent(extent, (level - 1) as nat);
        if previous / 2 == 0 {
            1
        } else {
            previous / 2
        }
    }
}

/// The number of levels of a full mip chain: down to a 1×1 level.
pub open spec fn full_chain_levels(extent: nat) -> nat
    decreases extent,
{
    if extent <= 1 {
        1
    } else {
        1 + full_chain_levels(extent / 2)
    }
}

/// The bytes of the first `levels` levels of one layer.
pub open spec fn chain_bytes(width: nat, height: nat, bpp: nat, levels: nat) -> nat
    decreases levels,
{
    if levels == 0 {
        0
    } else {
        chain_bytes(width, height, bpp, (levels - 1) as nat) + level_extent(
            width,
            (levels - 1) as nat,
        ) * level_extent(height, (levels - 1) as nat) * bpp
    }
}

/// The bytes of a texture: every level of every layer.
pub open spec fn texture_bytes(
    width: nat,
    height: nat,
    format: TextureFormat,
    kind: TextureKind,
    levels: nat,
) -> nat {
    spec_layers(kind) * chain_bytes(width, height, spec_bytes_per_pixel(format), levels)
}

proof fn lemma_level_extent_bound(extent: nat, level: nat)
    requires
        extent >= 1,
    ensures
        1 <= level_extent(extent, level) <= extent,
    decreases level,
{
    if level > 0 {
        lemma_level_extent_bound(extent, (level - 1) as nat);
    }
}

proof fn lemma_term_bound(w: nat, h: nat, bpp: nat)
    requires
        w <= 0xFFFF_FFFF,
        h <= 0xFFFF_FFFF,
        bpp <= 16,
    ensures
        w * h * bpp <= 0x10_0000_0000_0000_0000,
{
    assert(w * h <= 0xFFFF_FFFF * 0xFFFF_FFFF) by (nonlinear_arith)
        requires
            w <= 0xFFFF_FFFF,
            h <= 0xFFFF_FFFF,
    ;
    assert(w * h * bpp <= 0xFFFF_FFFF * 0xFFFF_FFFF * 16) by (nonlinear_arith)
        requires
            w * h <= 0xFFFF_FFFF * 0xFFFF_FFFF,
            bpp <= 16,
    ;
}

/// The number of levels of a full mip chain for a `width`×`height` texture.
pub fn generated_levels(width: u32, height: u32) -> (levels: u32)
    ensures
        levels == full_chain_levels(if width >= height { width as nat } else { height as nat }),
        1 <= levels <= 33,
{
    let mut extent: u32 = if width >= height { width } else { height };
    let mut levels: u32 = 1;
    let ghost start = extent as nat;
    proof {
        lemma_chain_levels_bound(start);
    }
    while extent > 1
        invariant
            levels >= 1,
            levels + full_chain_levels(extent as nat) == 1 + full_chain_levels(start),
            extent as nat <= start,
            full_chain_levels(extent as nat) <= 33 - levels,
        decreases extent,
    {
        proof {
            lemma_chain_levels_bound(extent as nat);
        }
        extent = extent / 2;
        levels = levels + 1;
    }
    proof {
        lemma_chain_levels_bound(start);
    }
    levels
}

pub proof fn lemma_chain_levels_bound(extent: nat)
    requires
        extent <= 0xFFFF_FFFF,
    ensures
        full_chain_levels(extent) <= 32,
    decreases extent,
{
    if extent > 1 {
        vstd::arithmetic::power2::lemma2_to64();
        lemma_chain_levels_bound_pow(extent, 31);
    }
}

proof fn lemma_chain_levels_bound_pow(extent: nat, k: nat)
    requires
        extent < vstd::arithmetic::power2::pow2(k + 1),
    ensures
        full_chain_levels(extent) <= k + 1,
    decreases k,
{
    vstd::arithmetic::power2::lemma_pow2_unfold(k + 1);
    if extent > 1 && k > 0 {
        lemma_chain_levels_bound_pow(extent / 2, (k - 1) as nat);
    } else if extent > 1 {
        assert(vstd::arithmetic::power2::pow2(0) == 1) by {
            vstd::arithmetic::power2::lemma2_to64();
        }
        assert(extent / 2 <= 1);
    }
}

/// The exact byte cost of a texture: `levels` levels of each layer.
pub fn texture_byte_len(
    width: u32,
    height: u32,
    format: TextureFormat,
    kind: TextureKind,
    levels: u32,
) -> (bytes: u128)
    requires
        width >= 1,
        height >= 1,
        levels <= 64,
    ensures
        bytes == texture_bytes(width as nat, height as nat, format, kind, levels as nat),
{
    let bpp = format.bytes_per_pixel();
    let mut w: u128 = width as u128;
    let mut h: u128 = height as u128;
    let mut level: u32 = 0;
    let mut total: u128 = 0;
    while level < levels
        invariant
            level <= levels <= 64,
            width >= 1,
            height >= 1,
            bpp == spec_bytes_per_pixel(format),
            w == level_extent(width as nat, level as nat),
            h == level_extent(height as nat, level as nat),
            total == chain_bytes(width as nat, height as nat, bpp as nat, level as nat),
            total <= level * 0x10_0000_0000_0000_0000,
        decreases levels - level,
    {
        proof {
            lemma_level_extent_bound(width as nat, level as nat);
            lemma_level_extent_bound(height as nat, level as nat);
            lemma_term_bound(w as nat, h as nat, bpp as nat);
        }
        let term = w * h * (bpp as u128);
        total = total + term;
        w = if w / 2 == 0 { 1 } else { w / 2 };
        h = if h / 2 == 0 { 1 } else { h / 2 };
        level = level + 1;
    }
    let layers = kind.layers() as u128;
    assert(total * layers <= 64 * 0x10_0000_0000_0000_0000 * 6) by (nonlinear_arith)
        requires
            total <= 64 * 0x10_0000_0000_0000_0000,
            layers <= 6,
    ;
    assert(layers * total == total * layers) by (nonlinear_arith);
    layers * total
}

} // verus!
