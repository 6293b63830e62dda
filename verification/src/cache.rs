//! The content cache: a deterministic content hash of the source image,
//! the hexadecimal entry name used on disk, and an entry store holding the
//! losslessly compressed byte streams keyed by that hash. Disk traffic
//! itself is the host's concern; the store here is the verified model the
//! host mirrors to and from its cache directory.

use vstd::prelude::*;

use std::collections::HashMap;

use crate::formats::{TextureDimension, TextureFormat};
use crate::texture::Image;

verus! {

broadcast use vstd::std_specs::hash::group_hash_axioms;

/// FNV-1a 64-bit offset basis.
pub const FNV_OFFSET_BASIS: u64 = 0xcbf29ce484222325;

/// FNV-1a 64-bit prime.
pub const FNV_PRIME: u64 = 0x100000001b3;

/// One FNV-1a step: fold one byte into the running hash.
pub open spec fn spec_fnv1a_step(h: u64, b: u8) -> u64 {
    (((h ^ (b as u64)) as nat * FNV_PRIME as nat) % 0x1_0000_0000_0000_0000) as u64
}

/// FNV-1a over a byte sequence, starting from `init`.
pub open spec fn spec_fnv1a(data: Seq<u8>, init: u64) -> u64
    decreases data.len(),
{
    if data.len() == 0 {
        init
    } else {
        spec_fnv1a_step(spec_fnv1a(data.drop_last(), init), data.last())
    }
}

/// Hashing a concatenation hashes the second part starting from the hash
/// of the first.
pub proof fn lemma_fnv1a_concat(a: Seq<u8>, b: Seq<u8>, init: u64)
    ensures
        spec_fnv1a(a + b, init) == spec_fnv1a(b, spec_fnv1a(a, init)),
    decreases b.len(),
{
    if b.len() == 0 {
        assert(a + b =~= a);
    } else {
        lemma_fnv1a_concat(a, b.drop_last(), init);
        assert((a + b).drop_last() =~= a + b.drop_last());
        assert((a + b).last() == b.last());
    }
}

/// The four bytes of a 32-bit value, least significant first.
pub open spec fn spec_u32_le(x: u32) -> Seq<u8> {
    seq![
        (x % 256) as u8,
        ((x / 256) % 256) as u8,
        ((x / 65536) % 256) as u8,
        ((x / 16777216) % 256) as u8,
    ]
}

/// A one-byte tag for each dimensionality.
pub open spec fn spec_dimension_code(d: TextureDimension) -> u8 {
    match d {
        TextureDimension::D1 => 1,
        TextureDimension::D2 => 2,
        TextureDimension::D3 => 3,
    }
}

/// A one-byte tag for each pixel format.
pub open spec fn spec_format_code(f: TextureFormat) -> u8 {
    match f {
        TextureFormat::R8Unorm => 1,
        TextureFormat::Rg8Unorm => 2,
        TextureFormat::Rgba8Unorm => 3,
        TextureFormat::Rgba8UnormSrgb => 4,
        TextureFormat::Bc4RUnorm => 5,
        TextureFormat::Bc5RgUnorm => 6,
        TextureFormat::Bc7RgbaUnorm => 7,
        TextureFormat::Bc7RgbaUnormSrgb => 8,
    }
}

/// The serialized descriptor folded into the content hash beside the raw
/// bytes: dimensions, layer count, dimensionality, format, and level
/// count.
pub open spec fn spec_descriptor_bytes(image: Image) -> Seq<u8> {
    spec_u32_le(image.width) + spec_u32_le(image.height) + spec_u32_le(image.depth_or_array_layers)
        + seq![spec_dimension_code(image.dimension)] + seq![spec_format_code(image.format)]
        + spec_u32_le(image.mip_level_count)
}

/// The content hash of a source image: FNV-1a over its raw bytes followed
/// by its descriptor. Never covers generation settings, so identical
/// sources share one cache entry whatever their settings.
pub open spec fn spec_content_hash(image: Image) -> u64 {
    spec_fnv1a(image.data@ + spec_descriptor_bytes(image), FNV_OFFSET_BASIS)
}

/// Folds a byte slice into a running FNV-1a hash.
fn fnv1a_accumulate(data: &[u8], init: u64) -> (r: u64)
    ensures
        r == spec_fnv1a(data@, init),
{
    let mut h = init;
    let mut i: usize = 0;
    while i < data.len()
        invariant
            i <= data@.len(),
            h == spec_fnv1a(data@.take(i as int), init),
        decreases data@.len() - i,
    {
        let b = data[i];
        h = (h ^ (b as u64)).wrapping_mul(FNV_PRIME);
        proof {
            assert(data@.take(i + 1).drop_last() =~= data@.take(i as int));
            assert(data@.take(i + 1).last() == data@[i as int]);
        }
        i = i + 1;
    }
    proof {
        assert(data@.take(data@.len() as int) =~= data@);
    }
    h
}

/// Appends the four little-endian bytes of `x`.
fn push_u32_le(out: &mut Vec<u8>, x: u32)
    ensures
        final(out)@ == old(out)@ + spec_u32_le(x),
{
    out.push((x % 256) as u8);
    out.push(((x / 256) % 256) as u8);
    out.push(((x / 65536) % 256) as u8);
    out.push(((x / 16777216) % 256) as u8);
    proof {
        assert(out@ =~= old(out)@ + spec_u32_le(x));
    }
}

/// Computes the content hash of a source image: its raw bytes and its
/// descriptor, never its generation settings.
pub fn calculate_hash(image: &Image) -> (r: u64)
    ensures
        r == spec_content_hash(*image),
{
    let h = fnv1a_accumulate(image.data.as_slice(), FNV_OFFSET_BASIS);

    let mut desc: Vec<u8> = Vec::new();
    push_u32_le(&mut desc, image.width);
    push_u32_le(&mut desc, image.height);
    push_u32_le(&mut desc, image.depth_or_array_layers);
    let dim_code: u8 = match image.dimension {
        TextureDimension::D1 => 1,
        TextureDimension::D2 => 2,
        TextureDimension::D3 => 3,
    };
    desc.push(dim_code);
    let format_code: u8 = match image.format {
        TextureFormat::R8Unorm => 1,
        TextureFormat::Rg8Unorm => 2,
        TextureFormat::Rgba8Unorm => 3,
        TextureFormat::Rgba8UnormSrgb => 4,
        TextureFormat::Bc4RUnorm => 5,
        TextureFormat::Bc5RgUnorm => 6,
        TextureFormat::Bc7RgbaUnorm => 7,
        TextureFormat::Bc7RgbaUnormSrgb => 8,
    };
    desc.push(format_code);
    push_u32_le(&mut desc, image.mip_level_count);
    proof {
        assert(desc@ =~= spec_descriptor_bytes(*image));
        lemma_fnv1a_concat(image.data@, spec_descriptor_bytes(*image), FNV_OFFSET_BASIS);
    }
    fnv1a_accumulate(desc.as_slice(), h)
}

/// The lowercase ASCII digit for one hex value.
pub open spec fn spec_hex_digit(d: nat) -> u8 {
    if d < 10 {
        (0x30 + d) as u8
    } else {
        (0x57 + d) as u8
    }
}

/// The lowercase hexadecimal digits of `n`, most significant first and
/// without leading zeros.
pub open spec fn spec_hex(n: nat) -> Seq<u8>
    decreases n,
{
    if n < 16 {
        seq![spec_hex_digit(n)]
    } else {
        spec_hex(n / 16) + seq![spec_hex_digit(n % 16)]
    }
}

fn push_hex(n: u64, out: &mut Vec<u8>)
    ensures
        final(out)@ == old(out)@ + spec_hex(n as nat),
    decreases n,
{
    if n < 16 {
        let d = n as u8;
        out.push(
            if d < 10 {
                0x30 + d
            } else {
                0x57 + d
            },
        );
        proof {
            assert(out@ =~= old(out)@ + spec_hex(n as nat));
        }
    } else {
        push_hex(n / 16, out);
        let d = (n % 16) as u8;
        out.push(
            if d < 10 {
                0x30 + d
            } else {
                0x57 + d
            },
        );
        proof {
            assert(out@ =~= old(out)@ + spec_hex(n as nat));
        }
    }
}

/// The ASCII file name of a cache entry: the lowercase hexadecimal
/// representation of its content hash.
pub fn cache_file_name(hash: u64) -> (r: Vec<u8>)
    ensures
        r@ == spec_hex(hash as nat),
{
    let mut out: Vec<u8> = Vec::new();
    push_hex(hash, &mut out);
    out
}

/// What `zstd::encode_all` returns at the default level: a function of the
/// input bytes alone.
pub uninterp spec fn spec_zstd_encoded(data: Seq<u8>) -> Seq<u8>;

/// What `zstd::decode_all` returns: `Some` decoded bytes or a failure,
/// a function of the input bytes alone.
pub uninterp spec fn spec_zstd_decoded(data: Seq<u8>) -> Option<Seq<u8>>;

/// Relies on `zstd::encode_all` at the default level over an in-memory
/// slice: a deterministic, lossless frame encoding of the input bytes,
/// which `zstd::decode_all` decodes back to exactly the input. Reading
/// from a slice cannot fail, so the `io::Result` (there for stream
/// sources) carries no failure here; memory exhaustion aside, the call
/// returns the encoding.
#[verifier::external_body]
fn zstd_encode(data: &Vec<u8>) -> (r: Vec<u8>)
    ensures
        r@ == spec_zstd_encoded(data@),
        spec_zstd_decoded(r@) == Some(data@),
{
    zstd::encode_all(data.as_slice(), 0).unwrap()
}

/// Relies on `zstd::decode_all` over an in-memory slice: deterministic in
/// the input bytes; it fails exactly on inputs that are not a valid frame.
#[verifier::external_body]
fn zstd_decode(data: &Vec<u8>) -> (r: Option<Vec<u8>>)
    ensures
        r matches Some(dec) ==> spec_zstd_decoded(data@) == Some(dec@),
        r is None ==> spec_zstd_decoded(data@) is None,
{
    zstd::decode_all(data.as_slice()).ok()
}

/// Running total of bytes written to the cache since startup. Never
/// decreases and never resets; used only to warn when the total crosses
/// each successive 1 GiB boundary.
#[derive(Default)]
pub struct CachedDataSize(pub usize);

/// Whole GiB contained in a byte count.
pub open spec fn spec_bytes_to_gb(bytes: nat) -> nat {
    bytes / 0x40000000
}

/// The in-memory model of the cache directory: one losslessly compressed
/// byte stream per content hash. The host mirrors entries to and from
/// disk; every decision about what an entry holds is made here.
pub struct ContentCache {
    pub entries: HashMap<u64, Vec<u8>>,
}

/// Storing encodes the bytes and files them under the hash.
pub open spec fn spec_cache_store(m: Map<u64, Seq<u8>>, hash: u64, bytes: Seq<u8>) -> Map<
    u64,
    Seq<u8>,
> {
    m.insert(hash, spec_zstd_encoded(bytes))
}

/// Loading decodes the entry under the hash, if there is one.
pub open spec fn spec_cache_load(m: Map<u64, Seq<u8>>, hash: u64) -> Option<Seq<u8>> {
    if m.contains_key(hash) {
        spec_zstd_decoded(m[hash])
    } else {
        None
    }
}

impl ContentCache {
    /// The entries as a map from content hash to stored (compressed)
    /// bytes.
    pub open spec fn view(self) -> Map<u64, Seq<u8>> {
        Map::new(
            |k: u64| self.entries@.dom().contains(k),
            |k: u64| self.entries@[k]@,
        )
    }

    pub fn new() -> (r: Self)
        ensures
            r@ == Map::<u64, Seq<u8>>::empty(),
    {
        let r = ContentCache { entries: HashMap::new() };
        proof {
            assert(r@ =~= Map::<u64, Seq<u8>>::empty());
        }
        r
    }

    /// Files raw (already compressed) bytes under a hash, as read back
    /// from disk by the host.
    pub fn insert_raw(&mut self, hash: u64, bytes: Vec<u8>)
        ensures
            final(self)@ == old(self)@.insert(hash, bytes@),
    {
        let ghost prev = self@;
        self.entries.insert(hash, bytes);
        proof {
            assert(self@ =~= prev.insert(hash, bytes@));
        }
    }

    /// The stored bytes under a hash, for the host to mirror to disk.
    pub fn get_raw(&self, hash: u64) -> (r: Option<&Vec<u8>>)
        ensures
            r matches Some(v) ==> self@.contains_key(hash) && v@ == self@[hash],
            r is None ==> !self@.contains_key(hash),
    {
        self.entries.get(&hash)
    }

    /// Compresses a generated byte stream and files it under its content
    /// hash.
    pub fn store(&mut self, hash: u64, bytes: &Vec<u8>)
        ensures
            final(self)@ == spec_cache_store(old(self)@, hash, bytes@),
            spec_zstd_decoded(spec_zstd_encoded(bytes@)) == Some(bytes@),
    {
        let ghost prev = self@;
        let enc = zstd_encode(bytes);
        let ghost enc_view = enc@;
        self.entries.insert(hash, enc);
        proof {
            assert(self@ =~= prev.insert(hash, enc_view));
        }
    }

    /// Decodes the entry stored under a hash, if any: the cache-lookup
    /// step of a generation call. A missing or undecodable entry is a
    /// miss.
    pub fn load(&self, hash: u64) -> (r: Option<Vec<u8>>)
        ensures
            r matches Some(v) ==> spec_cache_load(self@, hash) == Some(v@),
            r is None ==> spec_cache_load(self@, hash) is None,
    {
        match self.entries.get(&hash) {
            Some(enc) => zstd_decode(enc),
            None => None,
        }
    }
}

/// Law: a cache store followed by a cache load for the same hash returns
/// exactly the stored bytes. The premise is the byte-stream compressor's
/// lossless round trip, which [`ContentCache::store`] establishes for
/// every entry it writes.
pub proof fn lemma_cache_round_trip(m: Map<u64, Seq<u8>>, hash: u64, bytes: Seq<u8>)
    requires
        spec_zstd_decoded(spec_zstd_encoded(bytes)) == Some(bytes),
    ensures
        spec_cache_load(spec_cache_store(m, hash, bytes), hash) == Some(bytes),
{
}

} // verus!
