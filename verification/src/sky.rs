//! Sizing of the sky cubemap built from an equirectangular HDR/EXR image.
use vstd::prelude::*;
use vstd::arithmetic::power2::pow2;

verus! {

broadcast use {vstd::std_specs::bits::axiom_u32_leading_zeros, vstd::arithmetic::power2::lemma_pow2_pos};

/// Equirectangular sky file format.
#[derive(Clone, Copy, Debug, PartialEq, Eq, Structural)]
pub enum SkyFormat {
    Hdr,
    Exr,
}

/// Edge of the compute workgroups that fill the cubemap.
pub const WORKGROUP_EDGE: u32 = 16;

/// Bytes of one source texel (four `f32` channels).
pub const TEXEL_BYTES: u32 = 16;

/// The face edge aimed at for a source `width`: a sixth of it, never less than
/// a sixth of 64.
pub open spec fn face_target(width: u32) -> int {
    (if width >= 64 { width as int } else { 64 }) / 6
}

/// `n` is a power of two.
pub open spec fn is_power_of_two(n: int) -> bool {
    exists|e: nat| n == pow2(e)
}

/// Cubemap face edge for an equirectangular source of `source_width` pixels:
/// the largest power of two not above a sixth of the width (at least 64).
pub fn cube_face_size_for_source(source_width: u32) -> (size: u32)
    ensures
        is_power_of_two(size as int),
        size <= face_target(source_width) < 2 * size,
{
    let width: u32 = if source_width >= 64 { source_width } else { 64 };
    let target: u32 = width / 6;
    let lz: u32 = target.leading_zeros();
    assert(lz < 32);
    let k: u32 = 31 - lz;
    assert(target >> 30u32 == 0u32) by (bit_vector)
        requires
            target <= 0xFFFF_FFFFu32 / 6,
    ;
    assert((target >> k) & 1u32 != 0u32);
    assert(k >= 30u32 && target >> 30u32 == 0u32 ==> (target >> k) & 1u32 == 0u32) by (bit_vector);
    let size: u32 = 1u32 << k;
    proof {
        let k1: u32 = (k + 1) as u32;
        assert((target >> k) & 1u32 != 0u32);
        assert(target >> k1 == 0u32);
        assert(k < 32u32 && (target >> k) & 1u32 != 0u32 ==> (1u32 << k) <= target) by (bit_vector);
        assert(k < 30u32 && k1 == k + 1 && target >> k1 == 0u32 ==> target < (1u32 << k1))
            by (bit_vector);
        assert(k < 30u32 && k1 == k + 1 ==> (1u32 << k1) == 2 * (1u32 << k)) by (bit_vector);
        vstd::bits::lemma_u32_pow2_no_overflow(k as nat);
        vstd::bits::lemma_u32_shl_is_mul(1u32, k);
        assert(size == pow2(k as nat));
    }
    size
}

/// Face edge actually used: the requested one, else the one derived from the source.
pub fn face_size_or_default(requested: Option<u32>, source_width: u32) -> (size: u32)
    ensures
        requested is Some ==> size == requested->0,
        requested is None ==> is_power_of_two(size as int) && size <= face_target(source_width) < 2
            * size,
{
    match requested {
        Some(s) => s,
        None => cube_face_size_for_source(source_width),
    }
}

/// Workgroups per face side needed to cover a face of `face_size` texels.
pub fn workgroups_per_side(face_size: u32) -> (groups: u32)
    ensures
        groups * WORKGROUP_EDGE >= face_size,
        groups * WORKGROUP_EDGE < face_size + WORKGROUP_EDGE,
{
    let q = face_size / WORKGROUP_EDGE;
    if face_size % WORKGROUP_EDGE == 0 {
        q
    } else {
        q + 1
    }
}

/// Row pitch, in bytes, of the equirectangular source uploaded to the GPU.
pub fn source_bytes_per_row(width: u32) -> (bytes: u32)
    requires
        width * TEXEL_BYTES <= u32::MAX,
    ensures
        bytes == width * TEXEL_BYTES,
{
    width * TEXEL_BYTES
}

/// A wider source never yields a smaller cubemap face.
pub proof fn lemma_face_size_monotone(w1: u32, w2: u32, s1: u32, s2: u32)
    requires
        w1 <= w2,
        is_power_of_two(s1 as int),
        s1 <= face_target(w1) < 2 * s1,
        is_power_of_two(s2 as int),
        s2 <= face_target(w2) < 2 * s2,
    ensures
        s1 <= s2,
{
    let e1 = choose|e: nat| s1 == pow2(e);
    let e2 = choose|e: nat| s2 == pow2(e);
    if s1 > s2 {
        if e1 <= e2 {
            if e1 < e2 {
                vstd::arithmetic::power2::lemma_pow2_strictly_increases(e1, e2);
            }
        } else {
            vstd::arithmetic::power2::lemma_pow2_unfold(e1);
            if e2 < (e1 - 1) as nat {
                vstd::arithmetic::power2::lemma_pow2_strictly_increases(e2, (e1 - 1) as nat);
            }
        }
    }
}

/// The face size is the unique power of two bracketing the target: any
/// power of two `p` with `p <= face_target(w) < 2 * p` is the result.
pub proof fn lemma_face_size_unique(w: u32, s: u32, p: int)
    requires
        is_power_of_two(s as int),
        s <= face_target(w) < 2 * s,
        is_power_of_two(p),
        p <= face_target(w) < 2 * p,
    ensures
        p == s,
{
    let e1 = choose|e: nat| s == pow2(e);
    let e2 = choose|e: nat| p == pow2(e);
    if e1 < e2 {
        vstd::arithmetic::power2::lemma_pow2_unfold(e2);
        if e1 < (e2 - 1) as nat {
            vstd::arithmetic::power2::lemma_pow2_strictly_increases(e1, (e2 - 1) as nat);
        }
    } else if e2 < e1 {
        vstd::arithmetic::power2::lemma_pow2_unfold(e1);
        if e2 < (e1 - 1) as nat {
            vstd::arithmetic::power2::lemma_pow2_strictly_increases(e2, (e1 - 1) as nat);
        }
    }
}

} // verus!
