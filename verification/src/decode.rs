//! Decoding little-endian accessor bytes: indices, and float vectors carried
//! as bit patterns, converted to Unity's left-handed system where needed.
use vstd::prelude::*;
use crate::bits::{le_u16, le_u32, spec_neg, neg};

verus! {

/// The little-endian `u32` at byte offset `k` of `b`.
pub open spec fn u32_at(b: Seq<u8>, k: int) -> u32 {
    le_u32(b[k], b[k + 1], b[k + 2], b[k + 3])
}

/// The little-endian `u16` at byte offset `k` of `b`.
pub open spec fn u16_at(b: Seq<u8>, k: int) -> u16 {
    le_u16(b[k], b[k + 1])
}

/// Read the little-endian `u32` at byte offset `k`.
pub fn read_u32(b: &[u8], k: usize) -> (r: u32)
    requires
        k + 4 <= b@.len(),
    ensures
        r == u32_at(b@, k as int),
{
    let b0 = b[k] as u32;
    let b1 = b[k + 1] as u32;
    let b2 = b[k + 2] as u32;
    let b3 = b[k + 3] as u32;
    b0 + 256 * b1 + 65536 * b2 + 16777216 * b3
}

/// Read the little-endian `u16` at byte offset `k`.
pub fn read_u16(b: &[u8], k: usize) -> (r: u16)
    requires
        k + 2 <= b@.len(),
    ensures
        r == u16_at(b@, k as int),
{
    let b0 = b[k] as u16;
    let b1 = b[k + 1] as u16;
    b0 + 256 * b1
}

/// Position or normal vectors: each 12-byte chunk is three floats `[x, y, z]`,
/// returned as `[-x, y, z]`. A trailing partial chunk is ignored.
pub open spec fn spec_vec3_flip_x(b: Seq<u8>) -> Seq<[u32; 3]> {
    Seq::new(b.len() / 12, |i: int| [spec_neg(u32_at(b, 12 * i)), u32_at(b, 12 * i + 4), u32_at(b, 12 * i + 8)])
}

/// Tangent vectors: each 16-byte chunk is `[x, y, z, w]`, returned as `[-x, y, z, -w]`.
pub open spec fn spec_vec4_flip_xw(b: Seq<u8>) -> Seq<[u32; 4]> {
    Seq::new(b.len() / 16, |i: int| [
        spec_neg(u32_at(b, 16 * i)),
        u32_at(b, 16 * i + 4),
        u32_at(b, 16 * i + 8),
        spec_neg(u32_at(b, 16 * i + 12)),
    ])
}

/// Texture coordinates: each 8-byte chunk is `[u, v]`, returned unchanged.
pub open spec fn spec_vec2(b: Seq<u8>) -> Seq<[u32; 2]> {
    Seq::new(b.len() / 8, |i: int| [u32_at(b, 8 * i), u32_at(b, 8 * i + 4)])
}

/// Decode `[x, y, z]` float triples, negating X.
pub fn vec3_flip_x(b: &[u8]) -> (r: Vec<[u32; 3]>)
    ensures
        r@ == spec_vec3_flip_x(b@),
{
    let n = b.len() / 12;
    let mut out: Vec<[u32; 3]> = Vec::new();
    let mut i: usize = 0;
    while i < n
        invariant
            n == b@.len() / 12,
            b@.len() <= usize::MAX,
            i <= n,
            out@ =~= spec_vec3_flip_x(b@).take(i as int),
        decreases n - i,
    {
        assert(12 * i + 12 <= b@.len()) by (nonlinear_arith)
            requires
                i < n,
                n == b@.len() / 12,
        ;
        let k = 12 * i;
        let v = [neg(read_u32(b, k)), read_u32(b, k + 4), read_u32(b, k + 8)];
        out.push(v);
        i = i + 1;
        assert(out@ =~= spec_vec3_flip_x(b@).take(i as int));
    }
    out
}

/// Decode `[x, y, z, w]` float quadruples, negating X and W.
pub fn vec4_flip_xw(b: &[u8]) -> (r: Vec<[u32; 4]>)
    ensures
        r@ == spec_vec4_flip_xw(b@),
{
    let n = b.len() / 16;
    let mut out: Vec<[u32; 4]> = Vec::new();
    let mut i: usize = 0;
    while i < n
        invariant
            n == b@.len() / 16,
            b@.len() <= usize::MAX,
            i <= n,
            out@ =~= spec_vec4_flip_xw(b@).take(i as int),
        decreases n - i,
    {
        assert(16 * i + 16 <= b@.len()) by (nonlinear_arith)
            requires
                i < n,
                n == b@.len() / 16,
        ;
        let k = 16 * i;
        let v = [neg(read_u32(b, k)), read_u32(b, k + 4), read_u32(b, k + 8), neg(read_u32(b, k + 12))];
        out.push(v);
        i = i + 1;
        assert(out@ =~= spec_vec4_flip_xw(b@).take(i as int));
    }
    out
}

/// Decode `[u, v]` float pairs.
pub fn vec2(b: &[u8]) -> (r: Vec<[u32; 2]>)
    ensures
        r@ == spec_vec2(b@),
{
    let n = b.len() / 8;
    let mut out: Vec<[u32; 2]> = Vec::new();
    let mut i: usize = 0;
    while i < n
        invariant
            n == b@.len() / 8,
            b@.len() <= usize::MAX,
            i <= n,
            out@ =~= spec_vec2(b@).take(i as int),
        decreases n - i,
    {
        assert(8 * i + 8 <= b@.len()) by (nonlinear_arith)
            requires
                i < n,
                n == b@.len() / 8,
        ;
        let k = 8 * i;
        let v = [read_u32(b, k), read_u32(b, k + 4)];
        out.push(v);
        i = i + 1;
        assert(out@ =~= spec_vec2(b@).take(i as int));
    }
    out
}

} // verus!
