//! The descriptors of GPU resources and their validation, checked before
//! any backend call.

use vstd::prelude::*;
use crate::error::RenderError;
use crate::textures::{
    chain_bytes, full_chain_levels, generated_levels, lemma_chain_levels_bound, spec_bytes_per_pixel, spec_layers,
    texture_byte_len, texture_bytes, TextureFormat, TextureKind,
};

verus! {

/// The role of a buffer.
#[derive(Clone, Copy, Debug, PartialEq, Eq, Structural)]
pub enum BufferKind {
    Vertex,
    Index,
    Uniform,
}

/// A buffer and its initial contents.
#[derive(Debug)]
pub struct BufferDescriptor {
    pub label: String,
    pub kind: BufferKind,
    pub contents: Vec<u8>,
}

impl BufferDescriptor {
    /// A vertex buffer.
    pub fn vertex(label: String, contents: Vec<u8>) -> (d: Self)
        ensures
            d.label == label,
            d.kind == BufferKind::Vertex,
            d.contents == contents,
    {
        BufferDescriptor { label, kind: BufferKind::Vertex, contents }
    }

    /// An index buffer.
    pub fn index(label: String, contents: Vec<u8>) -> (d: Self)
        ensures
            d.label == label,
            d.kind == BufferKind::Index,
            d.contents == contents,
    {
        BufferDescriptor { label, kind: BufferKind::Index, contents }
    }
}

/// How a texture is used.
#[derive(Clone, Copy, Debug, PartialEq, Eq, Structural)]
pub enum TextureUsage {
    /// Sampled by materials, uploaded at creation.
    Sampled,
    /// Rendered into; no initial pixels.
    RenderTarget,
}

/// The mip levels of a texture.
#[derive(Clone, Copy, Debug, PartialEq, Eq, Structural)]
pub enum TextureMips {
    /// Level 0 only.
    Single,
    /// `n` levels, all provided in the pixels.
    Provided(u32),
    /// The full chain, generated from level 0.
    Generate,
}

/// A texture to create.
#[derive(Debug)]
pub struct TextureDescriptor {
    pub label: String,
    pub width: u32,
    pub height: u32,
    pub format: TextureFormat,
    pub kind: TextureKind,
    pub usage: TextureUsage,
    pub mips: TextureMips,
    pub pixels: Vec<u8>,
}

/// The number of levels a texture will have.
pub open spec fn mip_level_count(d: TextureDescriptor) -> nat {
    match d.mips {
        TextureMips::Single => 1,
        TextureMips::Provided(n) => n as nat,
        TextureMips::Generate => full_chain_levels(
            if d.width >= d.height {
                d.width as nat
            } else {
                d.height as nat
            },
        ),
    }
}

/// The pixel bytes a descriptor must carry: nothing for a render target,
/// level 0 of each layer when the chain is generated, every provided level
/// of each layer otherwise.
pub open spec fn expected_pixels(d: TextureDescriptor) -> nat {
    match d.usage {
        TextureUsage::RenderTarget => 0,
        TextureUsage::Sampled => match d.mips {
            TextureMips::Generate => texture_bytes(d.width as nat, d.height as nat, d.format, d.kind, 1),
            _ => texture_bytes(d.width as nat, d.height as nat, d.format, d.kind, mip_level_count(d)),
        },
    }
}

/// The rules of a texture descriptor.
pub enum TextureRule {
    ZeroDimensions,
    CubeNotSquare,
    RenderTargetPixels,
    MipLevels,
    PixelSize,
}

/// The first rule a texture descriptor breaks, in checking order.
pub open spec fn texture_rule(d: TextureDescriptor) -> Option<TextureRule> {
    if d.width == 0 || d.height == 0 {
        Some(TextureRule::ZeroDimensions)
    } else if d.kind == TextureKind::Cube && d.width != d.height {
        Some(TextureRule::CubeNotSquare)
    } else if d.usage == TextureUsage::RenderTarget && d.pixels@.len() != 0 {
        Some(TextureRule::RenderTargetPixels)
    } else if d.mips matches TextureMips::Provided(n) && (n == 0 || n > full_chain_levels(
        if d.width >= d.height {
            d.width as nat
        } else {
            d.height as nat
        },
    )) {
        Some(TextureRule::MipLevels)
    } else if d.pixels@.len() != expected_pixels(d) {
        Some(TextureRule::PixelSize)
    } else {
        None
    }
}

/// A valid descriptor has non-zero sides and at most 32 levels.
pub proof fn lemma_valid_levels(d: TextureDescriptor)
    requires
        texture_rule(d) is None,
    ensures
        d.width >= 1,
        d.height >= 1,
        1 <= mip_level_count(d) <= 32,
{
    let extent = if d.width >= d.height { d.width as nat } else { d.height as nat };
    lemma_chain_levels_bound(extent);
}

impl TextureDescriptor {
    /// A single-level 2D texture sampled by materials.
    pub fn sampled(label: String, width: u32, height: u32, format: TextureFormat, pixels: Vec<u8>) -> (d: Self)
        ensures
            d.label == label,
            d.width == width,
            d.height == height,
            d.format == format,
            d.kind == TextureKind::D2,
            d.usage == TextureUsage::Sampled,
            d.mips == TextureMips::Single,
            d.pixels == pixels,
    {
        TextureDescriptor {
            label,
            width,
            height,
            format,
            kind: TextureKind::D2,
            usage: TextureUsage::Sampled,
            mips: TextureMips::Single,
            pixels,
        }
    }

    /// A 2D texture rendered into.
    pub fn render_target(label: String, width: u32, height: u32, format: TextureFormat) -> (d: Self)
        ensures
            d.label == label,
            d.width == width,
            d.height == height,
            d.format == format,
            d.kind == TextureKind::D2,
            d.usage == TextureUsage::RenderTarget,
            d.mips == TextureMips::Single,
            d.pixels@.len() == 0,
    {
        TextureDescriptor {
            label,
            width,
            height,
            format,
            kind: TextureKind::D2,
            usage: TextureUsage::RenderTarget,
            mips: TextureMips::Single,
            pixels: Vec::new(),
        }
    }

    /// A cubemap of `size`×`size` faces (pixels: the six faces in order).
    pub fn cube(label: String, size: u32, format: TextureFormat, pixels: Vec<u8>) -> (d: Self)
        ensures
            d.label == label,
            d.width == size,
            d.height == size,
            d.format == format,
            d.kind == TextureKind::Cube,
            d.usage == TextureUsage::Sampled,
            d.mips == TextureMips::Single,
            d.pixels == pixels,
    {
        TextureDescriptor {
            label,
            width: size,
            height: size,
            format,
            kind: TextureKind::Cube,
            usage: TextureUsage::Sampled,
            mips: TextureMips::Single,
            pixels,
        }
    }

    /// The same texture with other mip levels.
    pub fn with_mips(self, mips: TextureMips) -> (d: Self)
        ensures
            d == (TextureDescriptor { mips, ..self }),
    {
        TextureDescriptor { mips, ..self }
    }

    /// The number of levels the texture will have.
    pub fn mip_levels(&self) -> (levels: u32)
        ensures
            levels == mip_level_count(*self),
    {
        match self.mips {
            TextureMips::Single => 1,
            TextureMips::Provided(n) => n,
            TextureMips::Generate => generated_levels(self.width, self.height),
        }
    }

    /// Validates the descriptor: non-zero dimensions, square cubemaps, no
    /// pixels for a render target, provided levels within the full chain,
    /// and exactly the expected pixel bytes.
    pub fn validate(&self) -> (result: Result<(), RenderError>)
        ensures
            match texture_rule(*self) {
                None => result is Ok,
                Some(TextureRule::ZeroDimensions) => result matches Err(RenderError::ZeroDimensions { label }) && label@ == self.label@,
                Some(TextureRule::CubeNotSquare) => result matches Err(RenderError::CubeNotSquare { label }) && label@ == self.label@,
                Some(TextureRule::RenderTargetPixels) => result matches Err(RenderError::RenderTargetPixels { label }) && label@ == self.label@,
                Some(TextureRule::MipLevels) => result matches Err(RenderError::MipLevels { label, .. }) && label@ == self.label@,
                Some(TextureRule::PixelSize) => result matches Err(RenderError::PixelSize { label, expected, got }) && label@
                    == self.label@ && expected == expected_pixels(*self) && got == self.pixels@.len(),
            },
    {
        if self.width == 0 || self.height == 0 {
            return Err(RenderError::ZeroDimensions { label: self.label.clone() });
        }
        if self.kind == TextureKind::Cube && self.width != self.height {
            return Err(RenderError::CubeNotSquare { label: self.label.clone() });
        }
        if self.usage == TextureUsage::RenderTarget && self.pixels.len() != 0 {
            return Err(RenderError::RenderTargetPixels { label: self.label.clone() });
        }
        let full = generated_levels(self.width, self.height);
        if let TextureMips::Provided(n) = self.mips {
            if n == 0 || n > full {
                return Err(RenderError::MipLevels { label: self.label.clone(), levels: n, max: full });
            }
        }
        let expected: u128 = match self.usage {
            TextureUsage::RenderTarget => 0,
            TextureUsage::Sampled => match self.mips {
                TextureMips::Generate => texture_byte_len(self.width, self.height, self.format, self.kind, 1),
                _ => texture_byte_len(self.width, self.height, self.format, self.kind, self.mip_levels()),
            },
        };
        if self.pixels.len() as u128 != expected {
            return Err(
                RenderError::PixelSize {
                    label: self.label.clone(),
                    expected,
                    got: self.pixels.len() as u64,
                },
            );
        }
        Ok(())
    }

    /// The exact bytes the texture occupies: every level of every layer.
    pub fn total_bytes(&self) -> (bytes: u128)
        requires
            self.width >= 1,
            self.height >= 1,
            mip_level_count(*self) <= 64,
        ensures
            bytes == texture_bytes(self.width as nat, self.height as nat, self.format, self.kind, mip_level_count(*self)),
    {
        texture_byte_len(self.width, self.height, self.format, self.kind, self.mip_levels())
    }
}

/// How a sampler filters.
#[derive(Clone, Copy, Debug, PartialEq, Eq, Structural)]
pub enum SamplerFilter {
    Nearest,
    Linear,
}

/// How a sampler addresses outside `0..1`.
#[derive(Clone, Copy, Debug, PartialEq, Eq, Structural)]
pub enum SamplerAddressMode {
    Repeat,
    ClampToEdge,
    MirrorRepeat,
}

/// A sampler to create.
#[derive(Debug)]
pub struct SamplerDescriptor {
    pub label: String,
    pub filter: SamplerFilter,
    pub address: SamplerAddressMode,
    pub mip_filter: SamplerFilter,
    pub anisotropy: u32,
}

/// The rules of a sampler descriptor.
pub enum SamplerRule {
    AnisotropyRange,
    AnisotropyFiltering,
}

/// The first rule a sampler descriptor breaks.
pub open spec fn sampler_rule(d: SamplerDescriptor) -> Option<SamplerRule> {
    if d.anisotropy == 0 || d.anisotropy > 16 {
        Some(SamplerRule::AnisotropyRange)
    } else if d.anisotropy > 1 && (d.filter != SamplerFilter::Linear || d.mip_filter != SamplerFilter::Linear) {
        Some(SamplerRule::AnisotropyFiltering)
    } else {
        None
    }
}

impl SamplerDescriptor {
    /// Linear filtering, repeat addressing, nearest mip selection, no
    /// anisotropy.
    pub fn new(label: String) -> (d: Self)
        ensures
            d.label == label,
            d.filter == SamplerFilter::Linear,
            d.address == SamplerAddressMode::Repeat,
            d.mip_filter == SamplerFilter::Nearest,
            d.anisotropy == 1,
    {
        SamplerDescriptor {
            label,
            filter: SamplerFilter::Linear,
            address: SamplerAddressMode::Repeat,
            mip_filter: SamplerFilter::Nearest,
            anisotropy: 1,
        }
    }

    /// The same sampler with another filter.
    pub fn with_filter(self, filter: SamplerFilter) -> (d: Self)
        ensures
            d == (SamplerDescriptor { filter, ..self }),
    {
        SamplerDescriptor { filter, ..self }
    }

    /// The same sampler with another addressing.
    pub fn with_address_mode(self, address: SamplerAddressMode) -> (d: Self)
        ensures
            d == (SamplerDescriptor { address, ..self }),
    {
        SamplerDescriptor { address, ..self }
    }

    /// The same sampler with another mip filter.
    pub fn with_mip_filter(self, mip_filter: SamplerFilter) -> (d: Self)
        ensures
            d == (SamplerDescriptor { mip_filter, ..self }),
    {
        SamplerDescriptor { mip_filter, ..self }
    }

    /// The same sampler with another anisotropy.
    pub fn with_anisotropy(self, anisotropy: u32) -> (d: Self)
        ensures
            d == (SamplerDescriptor { anisotropy, ..self }),
    {
        SamplerDescriptor { anisotropy, ..self }
    }

    /// Validates the sampler: anisotropy within 1..=16, and above 1 only
    /// with Linear filtering everywhere.
    pub fn validate(&self) -> (result: Result<(), RenderError>)
        ensures
            match sampler_rule(*self) {
                None => result is Ok,
                Some(SamplerRule::AnisotropyRange) => result matches Err(RenderError::AnisotropyRange { label, anisotropy })
                    && label@ == self.label@ && anisotropy == self.anisotropy,
                Some(SamplerRule::AnisotropyFiltering) => result matches Err(RenderError::AnisotropyFiltering { label })
                    && label@ == self.label@,
            },
    {
        if self.anisotropy == 0 || self.anisotropy > 16 {
            return Err(RenderError::AnisotropyRange { label: self.label.clone(), anisotropy: self.anisotropy });
        }
        if self.anisotropy > 1 && (self.filter != SamplerFilter::Linear || self.mip_filter != SamplerFilter::Linear) {
            return Err(RenderError::AnisotropyFiltering { label: self.label.clone() });
        }
        Ok(())
    }
}

/// An offscreen render target to create.
#[derive(Debug)]
pub struct RenderTargetDescriptor {
    pub label: String,
    pub width: u32,
    pub height: u32,
    pub format: TextureFormat,
}

impl RenderTargetDescriptor {
    pub fn new(label: String, width: u32, height: u32, format: TextureFormat) -> (d: Self)
        ensures
            d == (RenderTargetDescriptor { label, width, height, format }),
    {
        RenderTargetDescriptor { label, width, height, format }
    }

    /// Validates the target: non-zero dimensions.
    pub fn validate(&self) -> (result: Result<(), RenderError>)
        ensures
            (self.width == 0 || self.height == 0) ==> (result matches Err(RenderError::ZeroDimensions { label })
                && label@ == self.label@),
            (self.width != 0 && self.height != 0) ==> result is Ok,
    {
        if self.width == 0 || self.height == 0 {
            return Err(RenderError::ZeroDimensions { label: self.label.clone() });
        }
        Ok(())
    }
}

} // verus!
