//! Generated mip chains of 8-bit textures: each level a 2×2 box filter of
//! the one above (edges clamped, rounded to nearest), down to 1×1.

use vstd::prelude::*;
use crate::descriptors::{TextureDescriptor, TextureMips};
use crate::textures::{TextureFormat, TextureKind};

verus! {

/// The next level's extent: half, at least 1.
pub open spec fn half(n: nat) -> nat {
    if n / 2 == 0 {
        1
    } else {
        n / 2
    }
}

/// Channel `c` of texel (`x`, `y`) of a `w`-wide level of `bytes`-byte
/// texels, its coordinates clamped to the level.
pub open spec fn texel(level: Seq<u8>, w: nat, h: nat, bytes: nat, x: nat, y: nat, c: nat) -> int {
    let sx = if x < w { x } else { (w - 1) as nat };
    let sy = if y < h { y } else { (h - 1) as nat };
    level[((sy * w + sx) * bytes + c) as int] as int
}

/// Channel `c` of texel (`x`, `y`) of the next level: the rounded mean of
/// the 2×2 block above it.
pub open spec fn filtered(level: Seq<u8>, w: nat, h: nat, bytes: nat, x: nat, y: nat, c: nat) -> u8 {
    let sum = texel(level, w, h, bytes, 2 * x, 2 * y, c) + texel(level, w, h, bytes, 2 * x + 1, 2 * y, c)
        + texel(level, w, h, bytes, 2 * x, 2 * y + 1, c) + texel(level, w, h, bytes, 2 * x + 1, 2 * y + 1, c);
    ((sum + 2) / 4) as u8
}

/// Byte `i` of the level below a `w`×`h` level.
pub open spec fn down_byte(level: Seq<u8>, w: nat, h: nat, bytes: nat, i: int) -> u8 {
    let p = i / (bytes as int);
    filtered(level, w, h, bytes, (p % (half(w) as int)) as nat, (p / (half(w) as int)) as nat, (i % (bytes as int)) as nat)
}

/// The level below a `w`×`h` level.
pub open spec fn down(level: Seq<u8>, w: nat, h: nat, bytes: nat) -> Seq<u8> {
    Seq::new(half(w) * half(h) * bytes, |i: int| down_byte(level, w, h, bytes, i))
}

/// The larger side.
pub open spec fn extent(w: nat, h: nat) -> nat {
    if w >= h {
        w
    } else {
        h
    }
}

/// The levels below a `w`×`h` level, concatenated, down to 1×1.
pub open spec fn chain_below(level: Seq<u8>, w: nat, h: nat, bytes: nat) -> Seq<u8>
    decreases extent(w, h),
{
    if w <= 1 && h <= 1 {
        Seq::empty()
    } else {
        let next = down(level, w, h, bytes);
        next + chain_below(next, half(w), half(h), bytes)
    }
}

/// The number of levels from a `w`×`h` level down to 1×1.
pub open spec fn chain_levels(w: nat, h: nat) -> nat
    decreases extent(w, h),
{
    if w <= 1 && h <= 1 {
        1
    } else {
        1 + chain_levels(half(w), half(h))
    }
}

proof fn lemma_index(x: nat, y: nat, w: nat, h: nat, bytes: nat, c: nat)
    requires
        x < w,
        y < h,
        c < bytes,
    ensures
        (y * w + x) * bytes + c < w * h * bytes,
        y * w <= y * w + x,
        y * w + x <= (y * w + x) * bytes,
{
    assert(y * w + x <= (y * w + x) * bytes) by (nonlinear_arith)
        requires
            c < bytes,
    ;
    assert(y * w + x < w * h) by (nonlinear_arith)
        requires
            x < w,
            y < h,
    ;
    assert((y * w + x) * bytes + c < w * h * bytes) by (nonlinear_arith)
        requires
            y * w + x < w * h,
            c < bytes,
    ;
}

proof fn lemma_split(i: int, bytes: nat, nw: nat, nh: nat)
    requires
        0 <= i < nw * nh * bytes,
        bytes > 0,
        nw > 0,
    ensures
        0 <= i / (bytes as int),
        (i / (bytes as int)) % (nw as int) < nw,
        (i / (bytes as int)) / (nw as int) < nh,
        i % (bytes as int) < bytes,
{
    assert(0 <= i / (bytes as int) < nw * nh) by (nonlinear_arith)
        requires
            0 <= i < nw * nh * bytes,
            bytes > 0,
    ;
    assert((i / (bytes as int)) / (nw as int) < nh) by (nonlinear_arith)
        requires
            0 <= i / (bytes as int) < nw * nh,
            nw > 0,
    ;
}

/// One texel channel of a level, coordinates clamped.
fn read(level: &Vec<u8>, w: usize, h: usize, bytes: usize, x: usize, y: usize, c: usize) -> (v: u32)
    requires
        w > 0,
        h > 0,
        c < bytes,
        level@.len() == w * h * bytes,
    ensures
        v == texel(level@, w as nat, h as nat, bytes as nat, x as nat, y as nat, c as nat),
{
    let n = level.len();
    let sx = if x < w { x } else { w - 1 };
    let sy = if y < h { y } else { h - 1 };
    proof {
        lemma_index(sx as nat, sy as nat, w as nat, h as nat, bytes as nat, c as nat);
        assert((sy * w + sx) * bytes + c < w * h * bytes);
    }
    level[(sy * w + sx) * bytes + c] as u32
}

/// The level below a `w`×`h` level of `bytes`-byte texels.
pub fn downsample(level: &Vec<u8>, w: usize, h: usize, bytes: usize) -> (next: Vec<u8>)
    requires
        w > 0,
        h > 0,
        bytes > 0,
        level@.len() == w * h * bytes,
    ensures
        next@ == down(level@, w as nat, h as nat, bytes as nat),
{
    let n = level.len();
    let nw: usize = if w / 2 == 0 { 1 } else { w / 2 };
    let nh: usize = if h / 2 == 0 { 1 } else { h / 2 };
    proof {
        assert(nw * nh * bytes <= w * h * bytes) by (nonlinear_arith)
            requires
                1 <= nw <= w,
                1 <= nh <= h,
        ;
    }
    proof {
        assert(nw * nh <= nw * nh * bytes) by (nonlinear_arith)
            requires
                bytes > 0,
        ;
    }
    let total = nw * nh * bytes;
    let mut next: Vec<u8> = Vec::new();
    let mut i: usize = 0;
    while i < total
        invariant
            i <= total,
            total == nw * nh * bytes,
            nw as nat == half(w as nat),
            nh as nat == half(h as nat),
            nw <= w,
            w > 0,
            h > 0,
            bytes > 0,
            level@.len() == w * h * bytes,
            next@ == Seq::new(i as nat, |j: int| down_byte(level@, w as nat, h as nat, bytes as nat, j)),
        decreases total - i,
    {
        proof {
            lemma_split(i as int, bytes as nat, nw as nat, nh as nat);
        }
        let p = i / bytes;
        let c = i % bytes;
        let x = p % nw;
        let y = p / nw;
        let s = read(level, w, h, bytes, 2 * x, 2 * y, c) + read(level, w, h, bytes, 2 * x + 1, 2 * y, c)
            + read(level, w, h, bytes, 2 * x, 2 * y + 1, c) + read(level, w, h, bytes, 2 * x + 1, 2 * y + 1, c);
        let value = ((s + 2) / 4) as u8;
        next.push(value);
        proof {
            assert(value == down_byte(level@, w as nat, h as nat, bytes as nat, i as int));
            assert(next@ =~= Seq::new((i + 1) as nat, |j: int| down_byte(level@, w as nat, h as nat, bytes as nat, j)));
        }
        i = i + 1;
    }
    next
}


/// The levels from a `w`×`h` level to 1×1 are no more than its larger side.
proof fn lemma_chain_levels_bound(w: nat, h: nat)
    requires
        w >= 1,
        h >= 1,
    ensures
        chain_levels(w, h) <= extent(w, h),
    decreases extent(w, h),
{
    if !(w <= 1 && h <= 1) {
        lemma_chain_levels_bound(half(w), half(h));
    }
}

/// A level followed by every level below it, and how many there are.
pub fn mip_chain(level0: &Vec<u8>, w: usize, h: usize, bytes: usize) -> (r: (Vec<u8>, usize))
    requires
        w > 0,
        h > 0,
        bytes > 0,
        level0@.len() == w * h * bytes,
    ensures
        r.0@ == level0@ + chain_below(level0@, w as nat, h as nat, bytes as nat),
        r.1 == chain_levels(w as nat, h as nat),
{
    let mut pixels = level0.clone();
    let mut level = level0.clone();
    let mut cw = w;
    let mut ch = h;
    let mut levels: usize = 1;
    proof {
        lemma_chain_levels_bound(w as nat, h as nat);
    }
    while cw > 1 || ch > 1
        invariant
            cw >= 1,
            ch >= 1,
            bytes > 0,
            level@.len() == cw * ch * bytes,
            pixels@ + chain_below(level@, cw as nat, ch as nat, bytes as nat) == level0@ + chain_below(
                level0@,
                w as nat,
                h as nat,
                bytes as nat,
            ),
            levels + chain_levels(cw as nat, ch as nat) == chain_levels(w as nat, h as nat) + 1,
            chain_levels(w as nat, h as nat) <= extent(w as nat, h as nat),
        decreases extent(cw as nat, ch as nat),
    {
        let mut next = downsample(&level, cw, ch, bytes);
        let ghost next_view = next@;
        let ghost before = pixels@;
        let nw: usize = if cw / 2 == 0 { 1 } else { cw / 2 };
        let nh: usize = if ch / 2 == 0 { 1 } else { ch / 2 };
        level = next.clone();
        pixels.append(&mut next);
        proof {
            assert((before + next_view) + chain_below(next_view, nw as nat, nh as nat, bytes as nat) =~= before + (
            next_view + chain_below(next_view, nw as nat, nh as nat, bytes as nat)));
            assert(nw * nh * bytes == half(cw as nat) * half(ch as nat) * bytes);
        }
        proof {
            assert(chain_levels(nw as nat, nh as nat) >= 1);
            assert(chain_levels(cw as nat, ch as nat) == 1 + chain_levels(nw as nat, nh as nat));
        }
        cw = nw;
        ch = nh;
        levels = levels + 1;
    }
    (pixels, levels)
}

/// The bytes of a texel of an 8-bit format; `None` for a float format.
pub open spec fn byte_texel(format: TextureFormat) -> Option<nat> {
    match format {
        TextureFormat::R8Unorm => Some(1),
        TextureFormat::Rg8Unorm => Some(2),
        TextureFormat::Rgba8Unorm => Some(4),
        TextureFormat::Rgba8UnormSrgb => Some(4),
        TextureFormat::Bgra8UnormSrgb => Some(4),
        TextureFormat::Rgba16Float => None,
        TextureFormat::Rgba32Float => None,
    }
}

/// A generated chain can be resolved here: an 8-bit 2D texture whose
/// pixels are exactly its level 0.
pub open spec fn resolvable(d: TextureDescriptor) -> bool {
    &&& d.mips == TextureMips::Generate
    &&& d.kind == TextureKind::D2
    &&& byte_texel(d.format) is Some
    &&& d.width > 0 && d.height > 0
    &&& d.pixels@.len() == d.width * d.height * byte_texel(d.format)->Some_0
}

/// `r` is `d` with its generated chain resolved when `d` is resolvable:
/// every level provided in its pixels; otherwise `d` itself.
pub open spec fn mips_resolved(r: TextureDescriptor, d: TextureDescriptor) -> bool {
    &&& r.label@ == d.label@
    &&& r.width == d.width
    &&& r.height == d.height
    &&& r.format == d.format
    &&& r.kind == d.kind
    &&& r.usage == d.usage
    &&& if resolvable(d) {
        let b = byte_texel(d.format)->Some_0;
        &&& r.pixels@ == d.pixels@ + chain_below(d.pixels@, d.width as nat, d.height as nat, b)
        &&& r.mips == TextureMips::Provided(chain_levels(d.width as nat, d.height as nat) as u32)
    } else {
        &&& r.pixels@ == d.pixels@
        &&& r.mips == d.mips
    }
}

fn texel_bytes(format: TextureFormat) -> (b: Option<usize>)
    ensures
        match byte_texel(format) {
            Some(n) => b == Some(n as usize),
            None => b is None,
        },
{
    match format {
        TextureFormat::R8Unorm => Some(1),
        TextureFormat::Rg8Unorm => Some(2),
        TextureFormat::Rgba8Unorm => Some(4),
        TextureFormat::Rgba8UnormSrgb => Some(4),
        TextureFormat::Bgra8UnormSrgb => Some(4),
        TextureFormat::Rgba16Float => None,
        TextureFormat::Rgba32Float => None,
    }
}

/// The descriptor the backend receives: a generated chain of an 8-bit 2D
/// texture resolved here (2×2 box filter per level), every other
/// descriptor as given.
pub fn resolve_mips(d: &TextureDescriptor) -> (r: TextureDescriptor)
    ensures
        mips_resolved(r, *d),
{
    let label = d.label.clone();
    let pixels = d.pixels.clone();
    let plain = TextureDescriptor {
        label,
        width: d.width,
        height: d.height,
        format: d.format,
        kind: d.kind,
        usage: d.usage,
        mips: d.mips,
        pixels,
    };
    let bytes = match texel_bytes(d.format) {
        Some(b) => b,
        None => return plain,
    };
    if d.mips != TextureMips::Generate || d.kind != TextureKind::D2 || d.width == 0 || d.height == 0 {
        return plain;
    }
    let w = d.width as usize;
    let h = d.height as usize;
    let n = d.pixels.len();
    proof {
        assert(w * h <= w * h * bytes) by (nonlinear_arith)
            requires
                bytes >= 1,
        ;
    }
    let area = match w.checked_mul(h) {
        Some(a) => a,
        None => return plain,
    };
    let size = match area.checked_mul(bytes) {
        Some(s) => s,
        None => return plain,
    };
    if n != size {
        return plain;
    }
    let (chain, levels) = mip_chain(&d.pixels, w, h, bytes);
    proof {
        lemma_chain_levels_bound(w as nat, h as nat);
    }
    TextureDescriptor {
        label: d.label.clone(),
        width: d.width,
        height: d.height,
        format: d.format,
        kind: d.kind,
        usage: d.usage,
        mips: TextureMips::Provided(levels as u32),
        pixels: chain,
    }
}

} // verus!
