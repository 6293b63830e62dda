//! The image model: a 2-D texture with a mip chain laid out
//! largest-to-smallest in one byte buffer, its well-formedness invariant,
//! the compatibility check run before any processing, and extraction of a
//! single mip level.

use vstd::prelude::*;

use crate::errors::{IncompatibleKind, MipError};
use crate::formats::{TextureDimension, TextureFormat};

verus! {

/// Dimension of mip level `level`, starting from `d` at level 0 and halving
/// (integer division) at each step.
pub open spec fn spec_level_dim(d: nat, level: nat) -> nat
    decreases level,
{
    if level == 0 {
        d
    } else {
        spec_level_dim(d, (level - 1) as nat) / 2
    }
}

/// Total byte size of the first `levels` mip levels of an uncompressed
/// image whose level 0 is `w` by `h` at `bpt` bytes per texel.
pub open spec fn spec_mip_chain_bytes(bpt: nat, w: nat, h: nat, levels: nat) -> nat
    decreases levels,
{
    if levels == 0 {
        0
    } else {
        w * h * bpt + spec_mip_chain_bytes(bpt, w / 2, h / 2, (levels - 1) as nat)
    }
}

/// A 2-D texture image. `data` holds the concatenation of all mip levels in
/// order from largest to smallest.
pub struct Image {
    pub data: Vec<u8>,
    pub width: u32,
    pub height: u32,
    pub depth_or_array_layers: u32,
    pub dimension: TextureDimension,
    pub format: TextureFormat,
    pub mip_level_count: u32,
}

impl Image {
    /// Well-formedness: positive dimensions, at least one mip level, every
    /// recorded level actually has texels, and (for uncompressed layouts)
    /// the buffer holds exactly the bytes of the recorded levels.
    pub open spec fn inv(self) -> bool {
        &&& self.width >= 1
        &&& self.height >= 1
        &&& self.mip_level_count >= 1
        &&& spec_level_dim(self.width as nat, (self.mip_level_count - 1) as nat) >= 1
        &&& spec_level_dim(self.height as nat, (self.mip_level_count - 1) as nat) >= 1
        &&& !self.format.spec_is_compressed() ==> self.data@.len() == spec_mip_chain_bytes(
            self.format.spec_texel_bytes(),
            self.width as nat,
            self.height as nat,
            self.mip_level_count as nat,
        )
    }

    /// The compatibility conditions checked before any processing.
    pub open spec fn spec_compatible(self) -> bool {
        &&& !self.format.spec_is_compressed()
        &&& self.dimension == TextureDimension::D2
        &&& self.depth_or_array_layers == 1
    }

    /// The error reported for an incompatible image: the first failing
    /// check, in the order they are made.
    pub open spec fn spec_compat_error(self) -> MipError {
        if self.format.spec_is_compressed() {
            MipError::IncompatibleImage(IncompatibleKind::AlreadyCompressed)
        } else if self.dimension != TextureDimension::D2 {
            MipError::IncompatibleImage(IncompatibleKind::NotTwoDimensional)
        } else {
            MipError::IncompatibleImage(IncompatibleKind::MultipleLayers)
        }
    }
}

/// Rejects images the pipeline cannot process: block-compressed input,
/// non-2-D input, or more than one layer. Pure; a rejection aborts
/// generation for this image only.
pub fn check_image_compatible(image: &Image) -> (r: Result<(), MipError>)
    ensures
        r is Ok <==> image.spec_compatible(),
        r is Err ==> r->Err_0 == image.spec_compat_error(),
{
    if image.format.is_compressed() {
        return Err(MipError::IncompatibleImage(IncompatibleKind::AlreadyCompressed));
    }
    if !matches!(image.dimension, TextureDimension::D2) {
        return Err(MipError::IncompatibleImage(IncompatibleKind::NotTwoDimensional));
    }
    if image.depth_or_array_layers != 1 {
        return Err(MipError::IncompatibleImage(IncompatibleKind::MultipleLayers));
    }
    Ok(())
}

/// Peeling one halving off the front of the level recursion.
pub proof fn lemma_level_dim_shift(d: nat, level: nat)
    requires
        level >= 1,
    ensures
        spec_level_dim(d, level) == spec_level_dim(d / 2, (level - 1) as nat),
    decreases level,
{
    if level == 1 {
        assert(spec_level_dim(d, 1) == spec_level_dim(d, 0) / 2);
        assert(spec_level_dim(d, 0) == d);
        assert(spec_level_dim(d / 2, 0) == d / 2);
    } else {
        lemma_level_dim_shift(d, (level - 1) as nat);
        assert(spec_level_dim(d, level) == spec_level_dim(d, (level - 1) as nat) / 2);
        assert(spec_level_dim(d / 2, (level - 1) as nat) == spec_level_dim(
            d / 2,
            (level - 2) as nat,
        ) / 2);
    }
}

/// Reordering a three-way product, and bounding a partial product by the
/// whole when the last factor is positive.
pub proof fn lemma_mul_shuffle(w: nat, bs: nat, h: nat)
    ensures
        w * bs * h == w * h * bs,
        h >= 1 ==> w * bs <= w * bs * h,
{
    assert(w * bs * h == w * h * bs) by (nonlinear_arith);
    if h >= 1 {
        assert(w * bs <= w * bs * h) by (nonlinear_arith)
            requires
                h >= 1,
        ;
    }
}

/// Halving a dimension one more time halves the level dimension.
pub proof fn lemma_level_dim_step(d: nat, level: nat)
    ensures
        spec_level_dim(d, level + 1) == spec_level_dim(d, level) / 2,
{
}

/// Level dimensions never grow as the level index grows.
pub proof fn lemma_level_dim_antitone(d: nat, a: nat, b: nat)
    requires
        a <= b,
    ensures
        spec_level_dim(d, b) <= spec_level_dim(d, a),
    decreases b - a,
{
    if a < b {
        lemma_level_dim_antitone(d, a, (b - 1) as nat);
        lemma_level_dim_step(d, (b - 1) as nat);
    }
}

/// The chain of `levels` levels splits into its first `k` levels and the
/// remaining chain starting at level `k`.
pub proof fn lemma_mip_chain_split(bpt: nat, w: nat, h: nat, levels: nat, k: nat)
    requires
        k <= levels,
    ensures
        spec_mip_chain_bytes(bpt, w, h, levels) == spec_mip_chain_bytes(bpt, w, h, k)
            + spec_mip_chain_bytes(
            bpt,
            spec_level_dim(w, k),
            spec_level_dim(h, k),
            (levels - k) as nat,
        ),
    decreases k,
{
    if k > 0 {
        lemma_mip_chain_split(bpt, w / 2, h / 2, (levels - 1) as nat, (k - 1) as nat);
        lemma_level_dim_shift(w, k);
        lemma_level_dim_shift(h, k);
    }
}

/// Extracts one mip level of an uncompressed image as a new single-level
/// image sharing no state with the source. Levels are numbered from 1
/// (level 1 is the full-size level); asking for a level beyond the recorded
/// count fails and changes nothing.
pub fn extract_mip_level(image: &Image, mip_level: u32) -> (r: Result<Image, MipError>)
    requires
        image.inv(),
        mip_level >= 1,
    ensures
        r is Ok <==> (image.spec_compatible() && mip_level <= image.mip_level_count),
        r is Ok ==> {
            let out = r->Ok_0;
            let level = (mip_level - 1) as nat;
            let bpt = image.format.spec_texel_bytes();
            let w = spec_level_dim(image.width as nat, level);
            let h = spec_level_dim(image.height as nat, level);
            let offset = spec_mip_chain_bytes(bpt, image.width as nat, image.height as nat, level);
            &&& out.width == w
            &&& out.height == h
            &&& out.depth_or_array_layers == 1
            &&& out.dimension == image.dimension
            &&& out.format == image.format
            &&& out.mip_level_count == 1
            &&& out.data@ == image.data@.subrange(offset as int, (offset + w * h * bpt) as int)
            &&& out.inv()
        },
        r is Err ==> r->Err_0 == (if !image.spec_compatible() {
            image.spec_compat_error()
        } else {
            MipError::MipLevelOutOfRange
        }),
{
    let ghost bpt = image.format.spec_texel_bytes();
    let ghost w0 = image.width as nat;
    let ghost h0 = image.height as nat;
    if let Err(e) = check_image_compatible(image) {
        return Err(e);
    }
    if image.mip_level_count < mip_level {
        return Err(MipError::MipLevelOutOfRange);
    }

    let block_size: usize = image.format.texel_bytes() as usize;
    let mut width: usize = image.width as usize;
    let mut height: usize = image.height as usize;
    let mut byte_offset: usize = 0;
    let mut i: u32 = 0;
    let data_len: usize = image.data.len();

    proof {
        lemma_mip_chain_split(bpt, w0, h0, image.mip_level_count as nat, 0);
    }
    while i < mip_level - 1
        invariant
            data_len == image.data@.len(),
            image.inv(),
            image.spec_compatible(),
            1 <= mip_level <= image.mip_level_count,
            i <= mip_level - 1,
            bpt == image.format.spec_texel_bytes(),
            w0 == image.width as nat,
            h0 == image.height as nat,
            block_size == bpt,
            width == spec_level_dim(w0, i as nat),
            height == spec_level_dim(h0, i as nat),
            byte_offset == spec_mip_chain_bytes(bpt, w0, h0, i as nat),
            byte_offset + spec_mip_chain_bytes(
                bpt,
                spec_level_dim(w0, i as nat),
                spec_level_dim(h0, i as nat),
                (image.mip_level_count - i) as nat,
            ) == image.data@.len(),
        decreases mip_level - i,
    {
        let ghost wi = spec_level_dim(w0, i as nat);
        let ghost hi = spec_level_dim(h0, i as nat);
        let ghost rem = (image.mip_level_count - i) as nat;
        proof {
            lemma_level_dim_antitone(h0, i as nat, (image.mip_level_count - 1) as nat);
            assert(rem >= 1);
            assert(spec_mip_chain_bytes(bpt, wi, hi, rem) == wi * hi * bpt
                + spec_mip_chain_bytes(bpt, wi / 2, hi / 2, (rem - 1) as nat));
            lemma_mul_shuffle(wi, bpt, hi);
            lemma_mip_chain_split(bpt, w0, h0, (i + 1) as nat, i as nat);
            assert(spec_mip_chain_bytes(bpt, wi, hi, 1) == wi * hi * bpt
                + spec_mip_chain_bytes(bpt, wi / 2, hi / 2, 0));
            lemma_level_dim_step(w0, i as nat);
            lemma_level_dim_step(h0, i as nat);
        }
        byte_offset = byte_offset + width * block_size * height;
        width = width / 2;
        height = height / 2;
        i = i + 1;
    }

    let ghost level = (mip_level - 1) as nat;
    let ghost wl = spec_level_dim(w0, level);
    let ghost hl = spec_level_dim(h0, level);
    let ghost rem = (image.mip_level_count - level) as nat;
    proof {
        lemma_level_dim_antitone(w0, level, (image.mip_level_count - 1) as nat);
        lemma_level_dim_antitone(h0, level, (image.mip_level_count - 1) as nat);
        lemma_level_dim_antitone(w0, 0, level);
        lemma_level_dim_antitone(h0, 0, level);
        assert(rem >= 1);
        assert(spec_mip_chain_bytes(bpt, wl, hl, rem) == wl * hl * bpt + spec_mip_chain_bytes(
            bpt,
            wl / 2,
            hl / 2,
            (rem - 1) as nat,
        ));
        lemma_mul_shuffle(wl, bpt, hl);
    }
    let level_bytes: usize = width * block_size * height;
    let data = vstd::slice::slice_to_vec(&image.data[byte_offset..byte_offset + level_bytes]);

    let out = Image {
        data,
        width: width as u32,
        height: height as u32,
        depth_or_array_layers: 1,
        dimension: image.dimension,
        format: image.format,
        mip_level_count: 1,
    };
    proof {
        assert(spec_level_dim(out.width as nat, 0) == out.width as nat);
        assert(spec_mip_chain_bytes(bpt, wl, hl, 1) == wl * hl * bpt + spec_mip_chain_bytes(
            bpt,
            wl / 2,
            hl / 2,
            0,
        ));
    }
    Ok(out)
}

} // verus!
