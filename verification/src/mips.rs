//! The mip pyramid generator: how many levels a source supports, and the
//! production of the ordered largest-to-smallest byte stream of all levels.

use vstd::prelude::*;

use crate::compress::{bcn_compress_dyn_image, spec_bcn_level_bytes, spec_compressible};
use crate::raster::{resize_raster, spec_resized, Raster};
use crate::settings::CompressionSpeed;
use crate::texture::{lemma_level_dim_shift, lemma_level_dim_step, spec_level_dim};

verus! {

/// The block minimum: when the pipeline will block-compress, no level may
/// drop below the 4-texel block size; otherwise levels may shrink to one
/// texel.
pub open spec fn spec_block_min(compression: bool) -> nat {
    if compression {
        4
    } else {
        1
    }
}

/// The dimension floor for pyramid generation: the larger of the requested
/// minimum resolution and the block minimum.
pub open spec fn spec_dim_floor(min_res: nat, block_min: nat) -> nat {
    if min_res >= block_min {
        min_res
    } else {
        block_min
    }
}

/// The number of mip levels generated for a `w` by `h` source: level 0 is
/// the source itself, and halving continues while both halved dimensions
/// stay at or above `floor` and the level budget `max` is not exhausted.
pub open spec fn spec_mip_count(w: nat, h: nat, floor: nat, max: nat) -> nat
    decreases w,
{
    if max > 1 && floor >= 1 && w / 2 >= floor && h / 2 >= floor {
        1 + spec_mip_count(w / 2, h / 2, floor, (max - 1) as nat)
    } else {
        1
    }
}

/// A count computed against a floor also exhausts a budget of exactly that
/// many levels under any smaller floor.
pub proof fn lemma_mip_count_budget(w: nat, h: nat, floor2: nat, floor: nat, m: nat)
    requires
        1 <= floor2 <= floor,
    ensures
        spec_mip_count(w, h, floor2, spec_mip_count(w, h, floor, m)) == spec_mip_count(
            w,
            h,
            floor,
            m,
        ),
    decreases w,
{
    if spec_mip_count(w, h, floor, m) > 1 {
        lemma_mip_count_budget(w / 2, h / 2, floor2, floor, (m - 1) as nat);
    }
}

/// Returns the number of mip levels for a source of the given size,
/// including the first input level: 1 plus the number of times both
/// dimensions can be halved without dropping below the floor, capped at
/// `max_mip_count` levels in total.
pub fn calculate_mip_count(
    width: u32,
    height: u32,
    minimum_mip_resolution: u32,
    max_mip_count: u32,
    compression: Option<CompressionSpeed>,
) -> (r: u32)
    ensures
        r as nat == spec_mip_count(
            width as nat,
            height as nat,
            spec_dim_floor(minimum_mip_resolution as nat, spec_block_min(compression is Some)),
            max_mip_count as nat,
        ),
        r >= 1,
{
    let min: u32 = if compression.is_some() {
        4
    } else {
        1
    };
    let floor: u32 = if minimum_mip_resolution >= min {
        minimum_mip_resolution
    } else {
        min
    };
    let ghost total = spec_mip_count(width as nat, height as nat, floor as nat, max_mip_count as nat);
    let mut width = width;
    let mut height = height;
    let mut mip_level_count: u32 = 1;

    while width / 2 >= floor && height / 2 >= floor && mip_level_count < max_mip_count
        invariant
            floor >= 1,
            1 <= mip_level_count,
            mip_level_count <= max_mip_count || mip_level_count == 1,
            total == (mip_level_count - 1) + spec_mip_count(
                width as nat,
                height as nat,
                floor as nat,
                (max_mip_count - (mip_level_count - 1)) as nat,
            ),
        decreases width,
    {
        width = width / 2;
        height = height / 2;
        mip_level_count = mip_level_count + 1;
    }

    mip_level_count
}

/// Byte size of one level in the output stream: the BCn block encoding
/// when compression is on and the dimensions allow it, the raw texels
/// otherwise.
pub open spec fn spec_chunk_len(c: nat, comp: bool, w: nat, h: nat) -> nat {
    if comp && spec_compressible(w, h) {
        spec_bcn_level_bytes(c, w, h)
    } else {
        w * h * c
    }
}

/// Total byte size of the first `levels` levels of the output stream.
pub open spec fn spec_pyramid_len(c: nat, comp: bool, w: nat, h: nat, levels: nat) -> nat
    decreases levels,
{
    if levels == 0 {
        0
    } else {
        spec_chunk_len(c, comp, w, h) + spec_pyramid_len(c, comp, w / 2, h / 2, (levels - 1) as nat)
    }
}

/// The pixel data of level `n`: the source for level 0, and the resampled
/// previous level after that.
pub open spec fn spec_nth_level_data(
    d: Seq<u8>,
    c: nat,
    w: nat,
    h: nat,
    n: nat,
    f: image::imageops::FilterType,
) -> Seq<u8>
    decreases n,
{
    if n == 0 {
        d
    } else {
        spec_resized(
            c,
            spec_nth_level_data(d, c, w, h, (n - 1) as nat, f),
            spec_level_dim(w, (n - 1) as nat) as int,
            spec_level_dim(h, (n - 1) as nat) as int,
            spec_level_dim(w, n) as int,
            spec_level_dim(h, n) as int,
            f,
        )
    }
}

/// `out` is the byte stream of a pyramid of `levels` levels over source
/// data `d`: each level's chunk has the size of that level's encoding, and
/// every chunk that is not block-compressed holds exactly that level's
/// pixel data.
pub open spec fn spec_pyramid_ok(
    out: Seq<u8>,
    d: Seq<u8>,
    c: nat,
    w: nat,
    h: nat,
    levels: nat,
    f: image::imageops::FilterType,
    comp: bool,
) -> bool
    decreases levels,
{
    if levels == 0 {
        out.len() == 0
    } else {
        let clen = spec_chunk_len(c, comp, w, h);
        &&& out.len() >= clen
        &&& (!(comp && spec_compressible(w, h)) ==> out.subrange(0, clen as int) == d)
        &&& spec_pyramid_ok(
            out.skip(clen as int),
            spec_resized(c, d, w as int, h as int, (w / 2) as int, (h / 2) as int, f),
            c,
            w / 2,
            h / 2,
            (levels - 1) as nat,
            f,
            comp,
        )
    }
}

/// Peeling one resampling step off the front of the level recursion.
proof fn lemma_nth_level_shift(
    d: Seq<u8>,
    c: nat,
    w: nat,
    h: nat,
    n: nat,
    f: image::imageops::FilterType,
)
    requires
        n >= 1,
    ensures
        spec_nth_level_data(d, c, w, h, n, f) == spec_nth_level_data(
            spec_resized(c, d, w as int, h as int, (w / 2) as int, (h / 2) as int, f),
            c,
            w / 2,
            h / 2,
            (n - 1) as nat,
            f,
        ),
    decreases n,
{
    lemma_level_dim_shift(w, n);
    lemma_level_dim_shift(h, n);
    let d2 = spec_resized(c, d, w as int, h as int, (w / 2) as int, (h / 2) as int, f);
    if n == 1 {
        assert(spec_nth_level_data(d, c, w, h, 1, f) == spec_resized(
            c,
            spec_nth_level_data(d, c, w, h, 0, f),
            spec_level_dim(w, 0) as int,
            spec_level_dim(h, 0) as int,
            spec_level_dim(w, 1) as int,
            spec_level_dim(h, 1) as int,
            f,
        ));
        assert(spec_nth_level_data(d, c, w, h, 0, f) == d);
        assert(spec_nth_level_data(d2, c, w / 2, h / 2, 0, f) == d2);
    } else {
        lemma_nth_level_shift(d, c, w, h, (n - 1) as nat, f);
        lemma_level_dim_shift(w, (n - 1) as nat);
        lemma_level_dim_shift(h, (n - 1) as nat);
        assert(spec_nth_level_data(d, c, w, h, n, f) == spec_resized(
            c,
            spec_nth_level_data(d, c, w, h, (n - 1) as nat, f),
            spec_level_dim(w, (n - 1) as nat) as int,
            spec_level_dim(h, (n - 1) as nat) as int,
            spec_level_dim(w, n) as int,
            spec_level_dim(h, n) as int,
            f,
        ));
        assert(spec_nth_level_data(d2, c, w / 2, h / 2, (n - 1) as nat, f) == spec_resized(
            c,
            spec_nth_level_data(d2, c, w / 2, h / 2, (n - 2) as nat, f),
            spec_level_dim(w / 2, (n - 2) as nat) as int,
            spec_level_dim(h / 2, (n - 2) as nat) as int,
            spec_level_dim(w / 2, (n - 1) as nat) as int,
            spec_level_dim(h / 2, (n - 1) as nat) as int,
            f,
        ));
    }
}

/// Appending one more level's chunk to the stream of the first `k` levels
/// yields the stream of the first `k + 1` levels.
proof fn lemma_pyramid_extend(
    out: Seq<u8>,
    chunk: Seq<u8>,
    d: Seq<u8>,
    c: nat,
    w: nat,
    h: nat,
    k: nat,
    f: image::imageops::FilterType,
    comp: bool,
)
    requires
        spec_pyramid_ok(out, d, c, w, h, k, f, comp),
        out.len() == spec_pyramid_len(c, comp, w, h, k),
        chunk.len() == spec_chunk_len(c, comp, spec_level_dim(w, k), spec_level_dim(h, k)),
        !(comp && spec_compressible(spec_level_dim(w, k), spec_level_dim(h, k))) ==> chunk
            == spec_nth_level_data(d, c, w, h, k, f),
    ensures
        spec_pyramid_ok(out + chunk, d, c, w, h, k + 1, f, comp),
        (out + chunk).len() == spec_pyramid_len(c, comp, w, h, k + 1),
    decreases k,
{
    lemma_pyramid_len_extend(c, comp, w, h, k);
    if k == 0 {
        assert(out + chunk =~= chunk);
        let clen = spec_chunk_len(c, comp, w, h);
        assert(spec_level_dim(w, 0) == w);
        assert(spec_level_dim(h, 0) == h);
        assert(spec_nth_level_data(d, c, w, h, 0, f) == d);
        assert(chunk.subrange(0, clen as int) =~= chunk);
        assert(chunk.skip(clen as int) =~= Seq::<u8>::empty());
        assert((out + chunk).len() >= clen);
        if !(comp && spec_compressible(w, h)) {
            assert((out + chunk).subrange(0, clen as int) == d);
        }
        assert(spec_pyramid_ok(
            (out + chunk).skip(clen as int),
            spec_resized(c, d, w as int, h as int, (w / 2) as int, (h / 2) as int, f),
            c,
            w / 2,
            h / 2,
            0,
            f,
            comp,
        ));
    } else {
        let clen = spec_chunk_len(c, comp, w, h);
        assert((out + chunk).subrange(0, clen as int) =~= out.subrange(0, clen as int));
        assert((out + chunk).skip(clen as int) =~= out.skip(clen as int) + chunk);
        let d2 = spec_resized(c, d, w as int, h as int, (w / 2) as int, (h / 2) as int, f);
        lemma_level_dim_shift(w, k);
        lemma_level_dim_shift(h, k);
        lemma_nth_level_shift(d, c, w, h, k, f);
        assert(out.skip(clen as int).len() == spec_pyramid_len(c, comp, w / 2, h / 2, (k - 1) as nat));
        lemma_pyramid_extend(
            out.skip(clen as int),
            chunk,
            d2,
            c,
            w / 2,
            h / 2,
            (k - 1) as nat,
            f,
            comp,
        );
        assert((out + chunk).len() >= clen);
        if !(comp && spec_compressible(w, h)) {
            assert((out + chunk).subrange(0, clen as int) == d);
        }
        assert(spec_pyramid_ok(
            (out + chunk).skip(clen as int),
            d2,
            c,
            w / 2,
            h / 2,
            k,
            f,
            comp,
        ));
    }
}

/// One more level adds exactly that level's chunk size to the stream size.
proof fn lemma_pyramid_len_extend(c: nat, comp: bool, w: nat, h: nat, k: nat)
    ensures
        spec_pyramid_len(c, comp, w, h, k + 1) == spec_pyramid_len(c, comp, w, h, k)
            + spec_chunk_len(c, comp, spec_level_dim(w, k), spec_level_dim(h, k)),
    decreases k,
{
    if k == 0 {
        assert(spec_pyramid_len(c, comp, w, h, 1) == spec_chunk_len(c, comp, w, h)
            + spec_pyramid_len(c, comp, w / 2, h / 2, 0));
        assert(spec_level_dim(w, 0) == w);
        assert(spec_level_dim(h, 0) == h);
    } else {
        lemma_pyramid_len_extend(c, comp, w / 2, h / 2, (k - 1) as nat);
        lemma_level_dim_shift(w, k);
        lemma_level_dim_shift(h, k);
        assert(spec_pyramid_len(c, comp, w, h, k + 1) == spec_chunk_len(c, comp, w, h)
            + spec_pyramid_len(c, comp, w / 2, h / 2, k));
        assert(spec_pyramid_len(c, comp, w, h, k) == spec_chunk_len(c, comp, w, h)
            + spec_pyramid_len(c, comp, w / 2, h / 2, (k - 1) as nat));
    }
}

/// Appends one level's bytes to the output stream: its block encoding when
/// compression is requested and the dimensions allow it, its raw texels
/// otherwise.
fn append_level(out: &mut Vec<u8>, level: &Raster, compression: Option<CompressionSpeed>)
    requires
        level.inv(),
    ensures
        final(out)@.len() == old(out)@.len() + spec_chunk_len(
            level.channels as nat,
            compression is Some,
            level.width as nat,
            level.height as nat,
        ),
        final(out)@.subrange(0, old(out)@.len() as int) == old(out)@,
        !(compression is Some && spec_compressible(level.width as nat, level.height as nat))
            ==> final(out)@ == old(out)@ + level.data@,
{
    let ghost prefix = out@;
    match compression {
        Some(speed) => {
            match bcn_compress_dyn_image(speed, level) {
                Ok(mut bytes) => {
                    out.append(&mut bytes);
                },
                Err(_) => {
                    out.extend_from_slice(level.data.as_slice());
                },
            }
        },
        None => {
            out.extend_from_slice(level.data.as_slice());
        },
    }
    proof {
        assert(out@.subrange(0, prefix.len() as int) =~= prefix);
    }
}

/// Produces the byte stream of all mip levels, largest to smallest: level 0
/// is the input raster unchanged, and each further level halves both
/// dimensions through the configured filter, stopping at the block minimum
/// or once `mip_count` levels exist. When compression is requested, each
/// level whose dimensions allow it is block-compressed independently; the
/// rest fall back to raw texels. On return the raster holds the smallest
/// generated level.
pub fn generate_mips(
    dyn_image: &mut Raster,
    mip_count: u32,
    filter_type: image::imageops::FilterType,
    compression: Option<CompressionSpeed>,
) -> (out: Vec<u8>)
    requires
        old(dyn_image).inv(),
    ensures
        final(dyn_image).inv(),
        ({
            let d0 = old(dyn_image).data@;
            let c = old(dyn_image).channels as nat;
            let w0 = old(dyn_image).width as nat;
            let h0 = old(dyn_image).height as nat;
            let comp = compression is Some;
            let levels = spec_mip_count(w0, h0, spec_block_min(comp), mip_count as nat);
            &&& final(dyn_image).channels == old(dyn_image).channels
            &&& final(dyn_image).width == spec_level_dim(w0, (levels - 1) as nat)
            &&& final(dyn_image).height == spec_level_dim(h0, (levels - 1) as nat)
            &&& final(dyn_image).data@ == spec_nth_level_data(
                d0,
                c,
                w0,
                h0,
                (levels - 1) as nat,
                filter_type,
            )
            &&& out@.len() == spec_pyramid_len(c, comp, w0, h0, levels)
            &&& spec_pyramid_ok(out@, d0, c, w0, h0, levels, filter_type, comp)
        }),
{
    let ghost d0 = dyn_image.data@;
    let ghost c = dyn_image.channels as nat;
    let ghost w0 = dyn_image.width as nat;
    let ghost h0 = dyn_image.height as nat;
    let ghost comp = compression is Some;
    let ghost levels = spec_mip_count(w0, h0, spec_block_min(comp), mip_count as nat);

    let min: u32 = if compression.is_some() {
        4
    } else {
        1
    };
    let mut out: Vec<u8> = Vec::new();
    append_level(&mut out, dyn_image, compression);
    proof {
        assert(Seq::<u8>::empty() + dyn_image.data@ =~= dyn_image.data@);
        lemma_pyramid_extend(Seq::<u8>::empty(), out@, d0, c, w0, h0, 0, filter_type, comp);
    }
    let mut count: u32 = 1;

    while count < mip_count && dyn_image.width / 2 >= min && dyn_image.height / 2 >= min
        invariant
            dyn_image.inv(),
            dyn_image.channels as nat == c,
            1 <= count,
            count <= mip_count || count == 1,
            min as nat == spec_block_min(comp),
            comp == (compression is Some),
            dyn_image.width as nat == spec_level_dim(w0, (count - 1) as nat),
            dyn_image.height as nat == spec_level_dim(h0, (count - 1) as nat),
            dyn_image.data@ == spec_nth_level_data(d0, c, w0, h0, (count - 1) as nat, filter_type),
            out@.len() == spec_pyramid_len(c, comp, w0, h0, count as nat),
            spec_pyramid_ok(out@, d0, c, w0, h0, count as nat, filter_type, comp),
            levels == (count - 1) + spec_mip_count(
                dyn_image.width as nat,
                dyn_image.height as nat,
                min as nat,
                (mip_count - (count - 1)) as nat,
            ),
        decreases mip_count - count,
    {
        let ghost out_before = out@;
        let nw = dyn_image.width / 2;
        let nh = dyn_image.height / 2;
        let next = resize_raster(dyn_image, nw, nh, filter_type);
        *dyn_image = next;
        proof {
            lemma_level_dim_step(w0, (count - 1) as nat);
            lemma_level_dim_step(h0, (count - 1) as nat);
        }
        append_level(&mut out, dyn_image, compression);
        proof {
            let chunk = out@.skip(out_before.len() as int);
            assert(out@ =~= out_before + chunk);
            assert(spec_nth_level_data(d0, c, w0, h0, count as nat, filter_type) == spec_resized(
                c,
                spec_nth_level_data(d0, c, w0, h0, (count - 1) as nat, filter_type),
                spec_level_dim(w0, (count - 1) as nat) as int,
                spec_level_dim(h0, (count - 1) as nat) as int,
                spec_level_dim(w0, count as nat) as int,
                spec_level_dim(h0, count as nat) as int,
                filter_type,
            ));
            if !(comp && spec_compressible(dyn_image.width as nat, dyn_image.height as nat)) {
                assert(chunk =~= dyn_image.data@);
            }
            lemma_pyramid_extend(out_before, chunk, d0, c, w0, h0, count as nat, filter_type, comp);
        }
        count = count + 1;
    }

    out
}

/// Law: generating a pyramid without compression and then extracting its
/// first level returns the source bit-identically: the stream's first
/// `w * h * c` bytes are the source data, and extraction of level 1 reads
/// exactly those bytes, at byte offset zero.
pub proof fn lemma_generate_extract_roundtrip(
    pyramid: Seq<u8>,
    d: Seq<u8>,
    c: nat,
    w: nat,
    h: nat,
    levels: nat,
    f: image::imageops::FilterType,
)
    requires
        spec_pyramid_ok(pyramid, d, c, w, h, levels, f, false),
        levels >= 1,
        d.len() == w * h * c,
    ensures
        crate::texture::spec_mip_chain_bytes(c, w, h, 0) == 0,
        pyramid.subrange(0, (w * h * c) as int) == d,
{
}

/// 16 times the block count of a level is at least its texel count and at
/// most that count plus 15.
proof fn lemma_block_count_bounds(x: nat)
    ensures
        16 * ((x + 15) / 16) >= x,
        16 * ((x + 15) / 16) <= x + 15,
{
    vstd::arithmetic::div_mod::lemma_fundamental_div_mod((x + 15) as int, 16);
}

/// Halving both dimensions never grows a level's encoded size, compressed
/// or not.
proof fn lemma_chunk_len_halves(c: nat, comp: bool, w: nat, h: nat)
    requires
        c == 1 || c == 2 || c == 4,
    ensures
        spec_chunk_len(c, comp, w / 2, h / 2) <= spec_chunk_len(c, comp, w, h),
{
    let w2 = w / 2;
    let h2 = h / 2;
    assert(2 * w2 <= w);
    assert(2 * h2 <= h);
    assert(4 * (w2 * h2) <= w * h) by (nonlinear_arith)
        requires
            2 * w2 <= w,
            2 * h2 <= h,
            0 <= w2,
            0 <= h2,
    ;
    if comp && spec_compressible(w, h) {
        let k = (w * h + 15) / 16;
        lemma_block_count_bounds(w * h);
        if spec_compressible(w2, h2) {
            vstd::arithmetic::div_mod::lemma_div_is_ordered(
                (w2 * h2 + 15) as int,
                (w * h + 15) as int,
                16,
            );
        } else {
            assert(w2 * h2 <= 4 * k);
        }
    } else {
        if comp && spec_compressible(w2, h2) {
            let x = w2 * h2;
            let k2 = (x + 15) / 16;
            lemma_block_count_bounds(x);
            assert(x >= 16) by (nonlinear_arith)
                requires
                    w2 >= 4,
                    h2 >= 4,
                    x == w2 * h2,
            ;
            assert(16 * k2 <= 2 * x);
        } else {
            if c == 1 {
                assert(w2 * h2 * 1 <= w * h * 1);
            } else if c == 2 {
                assert(w2 * h2 * 2 <= w * h * 2);
            } else {
                assert(w2 * h2 * 4 <= w * h * 4);
            }
        }
    }
}

/// Level dimensions are the source dimensions integer-divided by a power
/// of two.
pub proof fn lemma_level_dim_pow2(d: nat, n: nat)
    ensures
        spec_level_dim(d, n) == d / vstd::arithmetic::power2::pow2(n),
    decreases n,
{
    vstd::arithmetic::power2::lemma2_to64();
    if n == 0 {
    } else {
        lemma_level_dim_pow2(d, (n - 1) as nat);
        vstd::arithmetic::power2::lemma_pow2_adds((n - 1) as nat, 1);
        vstd::arithmetic::power2::lemma_pow2_pos((n - 1) as nat);
        vstd::arithmetic::div_mod::lemma_div_denominator(
            d as int,
            vstd::arithmetic::power2::pow2((n - 1) as nat) as int,
            2,
        );
    }
}

/// Law: for every level of a pyramid, width and height are the source
/// dimensions integer-divided by `2^n`, and the per-level byte sizes never
/// grow from one level to the next.
pub proof fn lemma_pyramid_level_shape(c: nat, comp: bool, w: nat, h: nat, n: nat)
    requires
        c == 1 || c == 2 || c == 4,
    ensures
        spec_level_dim(w, n) == w / vstd::arithmetic::power2::pow2(n),
        spec_level_dim(h, n) == h / vstd::arithmetic::power2::pow2(n),
        spec_chunk_len(c, comp, spec_level_dim(w, n + 1), spec_level_dim(h, n + 1))
            <= spec_chunk_len(c, comp, spec_level_dim(w, n), spec_level_dim(h, n)),
{
    lemma_level_dim_pow2(w, n);
    lemma_level_dim_pow2(h, n);
    lemma_level_dim_step(w, n);
    lemma_level_dim_step(h, n);
    lemma_chunk_len_halves(c, comp, spec_level_dim(w, n), spec_level_dim(h, n));
}

} // verus!
