//! Packing exported vertex and index data into one binary buffer: every block
//! of data gets its own buffer view and accessor, and is aligned to its
//! component size inside the buffer.
use vstd::prelude::*;
use crate::bits::{le_bytes_u16, le_bytes_u32, le_u16, le_u32, lemma_le_u16_roundtrip, lemma_le_u32_roundtrip, neg, push_u16_le, push_u32_le, spec_neg};
use crate::decode::{u16_at, u32_at};
use crate::schema::{Accessor, AccessorComponentType, AccessorType, BufferView, BufferViewTarget};
use crate::primitive::{spec_wind, wind};
use crate::mesh::lemma_take_step;
use crate::export_context::{MeshData, MeshDataView};

verus! {

/// The binary buffer, buffer views and accessors built so far.
pub struct Packed {
    pub binary: Seq<u8>,
    pub views: Seq<BufferView>,
    pub accessors: Seq<Accessor>,
}

/// Nothing packed yet.
pub open spec fn empty_packed() -> Packed {
    Packed { binary: Seq::empty(), views: Seq::empty(), accessors: Seq::empty() }
}

/// The little-endian bytes of a sequence of `u32`s, one after another.
pub open spec fn u32s_bytes(s: Seq<u32>) -> Seq<u8>
    decreases s.len(),
{
    if s.len() == 0 { Seq::empty() } else { u32s_bytes(s.drop_last()) + le_bytes_u32(s.last()) }
}

/// The little-endian bytes of a sequence of `u16`s, one after another.
pub open spec fn u16s_bytes(s: Seq<u16>) -> Seq<u8>
    decreases s.len(),
{
    if s.len() == 0 { Seq::empty() } else { u16s_bytes(s.drop_last()) + le_bytes_u16(s.last()) }
}

/// The bytes of `[x, y, z]` float triples (bit patterns), tightly packed.
pub open spec fn vec3_bytes(s: Seq<[u32; 3]>) -> Seq<u8>
    decreases s.len(),
{
    if s.len() == 0 {
        Seq::empty()
    } else {
        vec3_bytes(s.drop_last()) + le_bytes_u32(s.last()[0]) + le_bytes_u32(s.last()[1]) + le_bytes_u32(s.last()[2])
    }
}

/// The bytes of `[u, v]` float pairs (bit patterns), tightly packed.
pub open spec fn vec2_bytes(s: Seq<[u32; 2]>) -> Seq<u8>
    decreases s.len(),
{
    if s.len() == 0 {
        Seq::empty()
    } else {
        vec2_bytes(s.drop_last()) + le_bytes_u32(s.last()[0]) + le_bytes_u32(s.last()[1])
    }
}

/// Unity vectors in glTF's right-handed system: X negated.
pub open spec fn to_gltf_vec3(s: Seq<[u32; 3]>) -> Seq<[u32; 3]> {
    Seq::new(s.len(), |i: int| [spec_neg(s[i][0]), s[i][1], s[i][2]])
}

/// Index values narrowed to `u16` (each taken modulo 2^16, as `as u16` does).
pub open spec fn narrow_u16(s: Seq<u32>) -> Seq<u16> {
    Seq::new(s.len(), |i: int| s[i] as u16)
}

/// The zero bytes that bring a length `len` up to a multiple of `align`.
pub open spec fn padding(len: nat, align: nat) -> nat {
    if len % align == 0 { 0 } else { (align - len % align) as nat }
}

/// `b` followed by the zero padding that aligns its end to `align`.
pub open spec fn aligned(b: Seq<u8>, align: nat) -> Seq<u8> {
    b + Seq::new(padding(b.len(), align), |i: int| 0u8)
}

/// Append one block: align the buffer, append `data`, and add a buffer view
/// over the block and an accessor over the view.
pub open spec fn push_block(
    p: Packed,
    align: nat,
    data: Seq<u8>,
    component_type: AccessorComponentType,
    accessor_type: AccessorType,
    count: nat,
    bounded: bool,
    target: BufferViewTarget,
) -> Packed {
    let start = aligned(p.binary, align);
    Packed {
        binary: start + data,
        views: p.views.push(BufferView {
            buffer: 0,
            byte_length: data.len() as u32,
            byte_offset: start.len() as u32,
            byte_stride: None,
            target: Some(target),
        }),
        accessors: p.accessors.push(Accessor {
            buffer_view: Some(p.views.len() as u32),
            byte_offset: None,
            component_type,
            count: count as u32,
            accessor_type,
            bounded,
        }),
    }
}

/// A block of `[x, y, z]` floats, converted to glTF's system.
pub open spec fn vec3_block(p: Packed, data: Seq<[u32; 3]>, bounded: bool) -> Packed {
    push_block(p, 4, vec3_bytes(to_gltf_vec3(data)), AccessorComponentType::Float, AccessorType::Vec3,
        data.len(), bounded, BufferViewTarget::ArrayBuffer)
}

/// A block of `[u, v]` floats.
pub open spec fn vec2_block(p: Packed, data: Seq<[u32; 2]>) -> Packed {
    push_block(p, 4, vec2_bytes(data), AccessorComponentType::Float, AccessorType::Vec2,
        data.len(), false, BufferViewTarget::ArrayBuffer)
}

/// A block of triangle indices, winding reversed for glTF, as `u16` when
/// `narrow` and as `u32` otherwise.
pub open spec fn index_block(p: Packed, indices: Seq<u32>, narrow: bool) -> Packed {
    let w = spec_wind(indices);
    if narrow {
        push_block(p, 2, u16s_bytes(narrow_u16(w)), AccessorComponentType::UnsignedShort,
            AccessorType::Scalar, w.len(), false, BufferViewTarget::ElementArrayBuffer)
    } else {
        push_block(p, 4, u32s_bytes(w), AccessorComponentType::UnsignedInt,
            AccessorType::Scalar, w.len(), false, BufferViewTarget::ElementArrayBuffer)
    }
}

/// One UV block per channel, in channel order.
#[verifier::opaque]
pub open spec fn pack_uv_channels(p: Packed, channels: Seq<Seq<[u32; 2]>>) -> Packed
    decreases channels.len(),
{
    if channels.len() == 0 {
        p
    } else {
        vec2_block(pack_uv_channels(p, channels.drop_last()), channels.last())
    }
}

/// One index block per sub-mesh, in order.
#[verifier::opaque]
pub open spec fn pack_index_lists(p: Packed, lists: Seq<Seq<u32>>, narrow: bool) -> Packed
    decreases lists.len(),
{
    if lists.len() == 0 {
        p
    } else {
        index_block(pack_index_lists(p, lists.drop_last(), narrow), lists.last(), narrow)
    }
}

/// Each block adds one buffer view and one accessor.
pub proof fn lemma_uv_counts(p: Packed, channels: Seq<Seq<[u32; 2]>>)
    ensures
        pack_uv_channels(p, channels).views.len() == p.views.len() + channels.len(),
        pack_uv_channels(p, channels).accessors.len() == p.accessors.len() + channels.len(),
    decreases channels.len(),
{
    reveal(pack_uv_channels);
    if channels.len() > 0 {
        lemma_uv_counts(p, channels.drop_last());
    }
}

/// Each block adds one buffer view and one accessor.
pub proof fn lemma_index_counts(p: Packed, lists: Seq<Seq<u32>>, narrow: bool)
    ensures
        pack_index_lists(p, lists, narrow).views.len() == p.views.len() + lists.len(),
        pack_index_lists(p, lists, narrow).accessors.len() == p.accessors.len() + lists.len(),
    decreases lists.len(),
{
    reveal(pack_index_lists);
    if lists.len() > 0 {
        lemma_index_counts(p, lists.drop_last(), narrow);
    }
}

// ---- reading the encodings back ---------------------------------------------------

/// Reading a `u32` inside the first part of a concatenation reads the first part.
pub proof fn lemma_u32_at_prefix(a: Seq<u8>, b: Seq<u8>, k: int)
    requires
        0 <= k,
        k + 4 <= a.len(),
    ensures
        u32_at(a + b, k) == u32_at(a, k),
{
    assert((a + b)[k] == a[k] && (a + b)[k + 1] == a[k + 1] && (a + b)[k + 2] == a[k + 2] && (a + b)[k + 3] == a[k + 3]);
}

/// Reading a `u16` inside the first part of a concatenation reads the first part.
pub proof fn lemma_u16_at_prefix(a: Seq<u8>, b: Seq<u8>, k: int)
    requires
        0 <= k,
        k + 2 <= a.len(),
    ensures
        u16_at(a + b, k) == u16_at(a, k),
{
    assert((a + b)[k] == a[k] && (a + b)[k + 1] == a[k + 1]);
}

/// A `u32` appended at the end reads back at its offset.
pub proof fn lemma_u32_at_end(a: Seq<u8>, x: u32)
    ensures
        u32_at(a + le_bytes_u32(x), a.len() as int) == x,
{
    let d = a + le_bytes_u32(x);
    let k = a.len() as int;
    assert(d[k] == le_bytes_u32(x)[0] && d[k + 1] == le_bytes_u32(x)[1]
        && d[k + 2] == le_bytes_u32(x)[2] && d[k + 3] == le_bytes_u32(x)[3]);
    lemma_le_u32_roundtrip(x);
}

/// A `u16` appended at the end reads back at its offset.
pub proof fn lemma_u16_at_end(a: Seq<u8>, x: u16)
    ensures
        u16_at(a + le_bytes_u16(x), a.len() as int) == x,
{
    let d = a + le_bytes_u16(x);
    let k = a.len() as int;
    assert(d[k] == le_bytes_u16(x)[0] && d[k + 1] == le_bytes_u16(x)[1]);
    lemma_le_u16_roundtrip(x);
}

/// Three floats take 12 bytes.
pub proof fn lemma_vec3_bytes_len(s: Seq<[u32; 3]>)
    ensures
        vec3_bytes(s).len() == 12 * s.len(),
    decreases s.len(),
{
    if s.len() > 0 {
        lemma_vec3_bytes_len(s.drop_last());
    }
}

/// Two floats take 8 bytes.
pub proof fn lemma_vec2_bytes_len(s: Seq<[u32; 2]>)
    ensures
        vec2_bytes(s).len() == 8 * s.len(),
    decreases s.len(),
{
    if s.len() > 0 {
        lemma_vec2_bytes_len(s.drop_last());
    }
}

/// A `u32` takes 4 bytes.
pub proof fn lemma_u32s_bytes_len(s: Seq<u32>)
    ensures
        u32s_bytes(s).len() == 4 * s.len(),
    decreases s.len(),
{
    if s.len() > 0 {
        lemma_u32s_bytes_len(s.drop_last());
    }
}

/// A `u16` takes 2 bytes.
pub proof fn lemma_u16s_bytes_len(s: Seq<u16>)
    ensures
        u16s_bytes(s).len() == 2 * s.len(),
    decreases s.len(),
{
    if s.len() > 0 {
        lemma_u16s_bytes_len(s.drop_last());
    }
}

/// Component `c` of vector `i` reads back from byte `12 i + 4 c`.
pub proof fn lemma_vec3_bytes_read(s: Seq<[u32; 3]>, i: int, c: int)
    requires
        0 <= i < s.len(),
        0 <= c < 3,
    ensures
        u32_at(vec3_bytes(s), 12 * i + 4 * c) == s[i][c],
    decreases s.len(),
{
    let init = s.drop_last();
    let x = s.last();
    lemma_vec3_bytes_len(init);
    let a = vec3_bytes(init);
    assert(vec3_bytes(s) == a + le_bytes_u32(x[0]) + le_bytes_u32(x[1]) + le_bytes_u32(x[2]));
    if i < s.len() - 1 {
        lemma_vec3_bytes_read(init, i, c);
        assert(vec3_bytes(s) =~= a + (le_bytes_u32(x[0]) + le_bytes_u32(x[1]) + le_bytes_u32(x[2])));
        assert(12 * i + 4 * c + 4 <= a.len()) by (nonlinear_arith)
            requires i < init.len(), c < 3, a.len() == 12 * init.len();
        lemma_u32_at_prefix(a, le_bytes_u32(x[0]) + le_bytes_u32(x[1]) + le_bytes_u32(x[2]), 12 * i + 4 * c);
    } else if c == 0 {
        assert(vec3_bytes(s) =~= (a + le_bytes_u32(x[0])) + (le_bytes_u32(x[1]) + le_bytes_u32(x[2])));
        lemma_u32_at_end(a, x[0]);
        lemma_u32_at_prefix(a + le_bytes_u32(x[0]), le_bytes_u32(x[1]) + le_bytes_u32(x[2]), a.len() as int);
    } else if c == 1 {
        assert(vec3_bytes(s) =~= (a + le_bytes_u32(x[0]) + le_bytes_u32(x[1])) + le_bytes_u32(x[2]));
        lemma_u32_at_end(a + le_bytes_u32(x[0]), x[1]);
        lemma_u32_at_prefix(a + le_bytes_u32(x[0]) + le_bytes_u32(x[1]), le_bytes_u32(x[2]), a.len() as int + 4);
    } else {
        lemma_u32_at_end(a + le_bytes_u32(x[0]) + le_bytes_u32(x[1]), x[2]);
    }
}

/// Component `c` of pair `i` reads back from byte `8 i + 4 c`.
pub proof fn lemma_vec2_bytes_read(s: Seq<[u32; 2]>, i: int, c: int)
    requires
        0 <= i < s.len(),
        0 <= c < 2,
    ensures
        u32_at(vec2_bytes(s), 8 * i + 4 * c) == s[i][c],
    decreases s.len(),
{
    let init = s.drop_last();
    let x = s.last();
    lemma_vec2_bytes_len(init);
    let a = vec2_bytes(init);
    assert(vec2_bytes(s) == a + le_bytes_u32(x[0]) + le_bytes_u32(x[1]));
    if i < s.len() - 1 {
        lemma_vec2_bytes_read(init, i, c);
        assert(vec2_bytes(s) =~= a + (le_bytes_u32(x[0]) + le_bytes_u32(x[1])));
        assert(8 * i + 4 * c + 4 <= a.len()) by (nonlinear_arith)
            requires i < init.len(), c < 2, a.len() == 8 * init.len();
        lemma_u32_at_prefix(a, le_bytes_u32(x[0]) + le_bytes_u32(x[1]), 8 * i + 4 * c);
    } else if c == 0 {
        lemma_u32_at_end(a, x[0]);
        lemma_u32_at_prefix(a + le_bytes_u32(x[0]), le_bytes_u32(x[1]), a.len() as int);
    } else {
        lemma_u32_at_end(a + le_bytes_u32(x[0]), x[1]);
    }
}

/// Value `i` reads back from byte `4 i`.
pub proof fn lemma_u32s_bytes_read(s: Seq<u32>, i: int)
    requires
        0 <= i < s.len(),
    ensures
        u32_at(u32s_bytes(s), 4 * i) == s[i],
    decreases s.len(),
{
    let init = s.drop_last();
    lemma_u32s_bytes_len(init);
    let a = u32s_bytes(init);
    if i < s.len() - 1 {
        lemma_u32s_bytes_read(init, i);
        lemma_u32_at_prefix(a, le_bytes_u32(s.last()), 4 * i);
    } else {
        lemma_u32_at_end(a, s.last());
    }
}

/// Value `i` reads back from byte `2 i`.
pub proof fn lemma_u16s_bytes_read(s: Seq<u16>, i: int)
    requires
        0 <= i < s.len(),
    ensures
        u16_at(u16s_bytes(s), 2 * i) == s[i],
    decreases s.len(),
{
    let init = s.drop_last();
    lemma_u16s_bytes_len(init);
    let a = u16s_bytes(init);
    if i < s.len() - 1 {
        lemma_u16s_bytes_read(init, i);
        lemma_u16_at_prefix(a, le_bytes_u16(s.last()), 2 * i);
    } else {
        lemma_u16_at_end(a, s.last());
    }
}

/// The `Packed` value of the three output vectors.
pub open spec fn packed_of(binary: Seq<u8>, views: Seq<BufferView>, accessors: Seq<Accessor>) -> Packed {
    Packed { binary, views, accessors }
}

// ---- exec ---------------------------------------------------------------------

/// Pad `buf` with zero bytes until its length is a multiple of `alignment`.
pub fn align_to(buf: &mut Vec<u8>, alignment: usize)
    requires
        alignment > 0,
    ensures
        final(buf)@ == aligned(old(buf)@, alignment as nat),
{
    let rem = buf.len() % alignment;
    if rem != 0 {
        let pad = alignment - rem;
        let ghost start = buf@;
        let mut k: usize = 0;
        while k < pad
            invariant
                k <= pad,
                buf@ =~= start + Seq::new(k as nat, |i: int| 0u8),
            decreases pad - k,
        {
            buf.push(0u8);
            k = k + 1;
            assert(buf@ =~= start + Seq::new(k as nat, |i: int| 0u8));
        }
    }
    assert(final(buf)@ =~= aligned(old(buf)@, alignment as nat)) by {
        assert(padding(old(buf)@.len(), alignment as nat) == (if rem == 0 { 0 } else { alignment - rem }));
    }
}

/// Append the bytes of `data` converted to glTF's system (X negated).
fn append_vec3_gltf(buf: &mut Vec<u8>, data: &Vec<[u32; 3]>)
    ensures
        final(buf)@ == old(buf)@ + vec3_bytes(to_gltf_vec3(data@)),
{
    let ghost start = buf@;
    let ghost g = to_gltf_vec3(data@);
    let mut i: usize = 0;
    while i < data.len()
        invariant
            i <= data@.len(),
            g == to_gltf_vec3(data@),
            buf@ =~= start + vec3_bytes(g.take(i as int)),
        decreases data@.len() - i,
    {
        let v = data[i];
        push_u32_le(buf, neg(v[0]));
        push_u32_le(buf, v[1]);
        push_u32_le(buf, v[2]);
        proof {
            lemma_take_step(g, i as int);
            assert(vec3_bytes(g.take(i + 1)) == vec3_bytes(g.take(i as int)) + le_bytes_u32(g[i as int][0])
                + le_bytes_u32(g[i as int][1]) + le_bytes_u32(g[i as int][2]));
        }
        i = i + 1;
    }
    assert(g.take(data@.len() as int) =~= g);
}

/// Append the bytes of `data`.
fn append_vec2(buf: &mut Vec<u8>, data: &Vec<[u32; 2]>)
    ensures
        final(buf)@ == old(buf)@ + vec2_bytes(data@),
{
    let ghost start = buf@;
    let mut i: usize = 0;
    while i < data.len()
        invariant
            i <= data@.len(),
            buf@ =~= start + vec2_bytes(data@.take(i as int)),
        decreases data@.len() - i,
    {
        let v = data[i];
        push_u32_le(buf, v[0]);
        push_u32_le(buf, v[1]);
        proof {
            lemma_take_step(data@, i as int);
            assert(vec2_bytes(data@.take(i + 1)) == vec2_bytes(data@.take(i as int)) + le_bytes_u32(data@[i as int][0])
                + le_bytes_u32(data@[i as int][1]));
        }
        i = i + 1;
    }
    assert(data@.take(data@.len() as int) =~= data@);
}

/// Append the little-endian bytes of `data`.
fn append_u32s(buf: &mut Vec<u8>, data: &Vec<u32>)
    ensures
        final(buf)@ == old(buf)@ + u32s_bytes(data@),
{
    let ghost start = buf@;
    let mut i: usize = 0;
    while i < data.len()
        invariant
            i <= data@.len(),
            buf@ =~= start + u32s_bytes(data@.take(i as int)),
        decreases data@.len() - i,
    {
        push_u32_le(buf, data[i]);
        proof {
            lemma_take_step(data@, i as int);
        }
        i = i + 1;
    }
    assert(data@.take(data@.len() as int) =~= data@);
}

/// Append the little-endian bytes of `data`, each value narrowed to `u16`.
fn append_u16s(buf: &mut Vec<u8>, data: &Vec<u32>)
    ensures
        final(buf)@ == old(buf)@ + u16s_bytes(narrow_u16(data@)),
{
    let ghost start = buf@;
    let ghost n = narrow_u16(data@);
    let mut i: usize = 0;
    while i < data.len()
        invariant
            i <= data@.len(),
            n == narrow_u16(data@),
            buf@ =~= start + u16s_bytes(n.take(i as int)),
        decreases data@.len() - i,
    {
        push_u16_le(buf, data[i] as u16);
        proof {
            lemma_take_step(n, i as int);
        }
        i = i + 1;
    }
    assert(n.take(data@.len() as int) =~= n);
}

/// Record a block that was appended to the buffer from byte `offset` on: add
/// its buffer view and its accessor, and return the accessor's index.
fn record_block(
    views: &mut Vec<BufferView>,
    accessors: &mut Vec<Accessor>,
    offset: usize,
    length: usize,
    component_type: AccessorComponentType,
    accessor_type: AccessorType,
    count: usize,
    bounded: bool,
    target: BufferViewTarget,
) -> (acc: u32)
    ensures
        final(views)@ == old(views)@.push(BufferView {
            buffer: 0,
            byte_length: length as u32,
            byte_offset: offset as u32,
            byte_stride: None,
            target: Some(target),
        }),
        final(accessors)@ == old(accessors)@.push(Accessor {
            buffer_view: Some(old(views)@.len() as u32),
            byte_offset: None,
            component_type,
            count: count as u32,
            accessor_type,
            bounded,
        }),
        acc == old(accessors)@.len() as u32,
{
    let bv_idx = views.len() as u32;
    views.push(BufferView {
        buffer: 0,
        byte_length: length as u32,
        byte_offset: offset as u32,
        byte_stride: None,
        target: Some(target),
    });
    let acc_idx = accessors.len() as u32;
    accessors.push(Accessor {
        buffer_view: Some(bv_idx),
        byte_offset: None,
        component_type,
        count: count as u32,
        accessor_type,
        bounded,
    });
    acc_idx
}

/// Pack `[x, y, z]` vectors (converted to glTF's system) as a new block;
/// returns the accessor's index.
pub fn push_vec3(
    binary: &mut Vec<u8>,
    views: &mut Vec<BufferView>,
    accessors: &mut Vec<Accessor>,
    data: &Vec<[u32; 3]>,
    bounded: bool,
) -> (acc: u32)
    ensures
        packed_of(final(binary)@, final(views)@, final(accessors)@)
            == vec3_block(packed_of(old(binary)@, old(views)@, old(accessors)@), data@, bounded),
        acc == old(accessors)@.len() as u32,
{
    align_to(binary, 4);
    let offset = binary.len();
    append_vec3_gltf(binary, data);
    let length = binary.len() - offset;
    record_block(views, accessors, offset, length, AccessorComponentType::Float, AccessorType::Vec3,
        data.len(), bounded, BufferViewTarget::ArrayBuffer)
}

/// Pack `[u, v]` pairs as a new block; returns the accessor's index.
pub fn push_vec2(
    binary: &mut Vec<u8>,
    views: &mut Vec<BufferView>,
    accessors: &mut Vec<Accessor>,
    data: &Vec<[u32; 2]>,
) -> (acc: u32)
    ensures
        packed_of(final(binary)@, final(views)@, final(accessors)@)
            == vec2_block(packed_of(old(binary)@, old(views)@, old(accessors)@), data@),
        acc == old(accessors)@.len() as u32,
{
    align_to(binary, 4);
    let offset = binary.len();
    append_vec2(binary, data);
    let length = binary.len() - offset;
    record_block(views, accessors, offset, length, AccessorComponentType::Float, AccessorType::Vec2,
        data.len(), false, BufferViewTarget::ArrayBuffer)
}

/// Pack a sub-mesh's triangle indices, winding reversed, as a new block of
/// `u16` (when `narrow`) or `u32` indices; returns the accessor's index.
pub fn push_indices(
    binary: &mut Vec<u8>,
    views: &mut Vec<BufferView>,
    accessors: &mut Vec<Accessor>,
    indices: &Vec<u32>,
    narrow: bool,
) -> (acc: u32)
    ensures
        packed_of(final(binary)@, final(views)@, final(accessors)@)
            == index_block(packed_of(old(binary)@, old(views)@, old(accessors)@), indices@, narrow),
        acc == old(accessors)@.len() as u32,
{
    let wound = wind(indices);
    if narrow {
        align_to(binary, 2);
        let offset = binary.len();
        append_u16s(binary, &wound);
        let length = binary.len() - offset;
        record_block(views, accessors, offset, length, AccessorComponentType::UnsignedShort,
            AccessorType::Scalar, wound.len(), false, BufferViewTarget::ElementArrayBuffer)
    } else {
        align_to(binary, 4);
        let offset = binary.len();
        append_u32s(binary, &wound);
        let length = binary.len() - offset;
        record_block(views, accessors, offset, length, AccessorComponentType::UnsignedInt,
            AccessorType::Scalar, wound.len(), false, BufferViewTarget::ElementArrayBuffer)
    }
}

// ---- meshes -------------------------------------------------------------------

/// The largest vertex count whose indices are packed as `u16`.
pub const MAX_U16_INDEXED_VERTICES: usize = 65535;

/// The blocks of one mesh: positions (with bounds when there are any),
/// normals when there are any, each UV channel, then each sub-mesh's indices
/// (`u16` when the mesh has at most 65535 vertices).
#[verifier::opaque]
pub open spec fn pack_mesh(p: Packed, m: MeshDataView) -> Packed {
    pack_index_lists(pack_uv_channels(vertex_blocks(p, m), m.uvs), m.submeshes, narrow_indices(m))
}

/// The position block, then the normal block when there are normals.
pub open spec fn vertex_blocks(p: Packed, m: MeshDataView) -> Packed {
    let p1 = vec3_block(p, m.positions, m.positions.len() > 0);
    if m.normals.len() > 0 { vec3_block(p1, m.normals, false) } else { p1 }
}

/// The mesh's indices are packed as `u16`.
pub open spec fn narrow_indices(m: MeshDataView) -> bool {
    m.positions.len() <= MAX_U16_INDEXED_VERTICES
}

/// The blocks of every mesh, in order.
#[verifier::opaque]
pub open spec fn pack_meshes(ms: Seq<MeshDataView>) -> Packed
    decreases ms.len(),
{
    if ms.len() == 0 {
        empty_packed()
    } else {
        pack_mesh(pack_meshes(ms.drop_last()), ms.last())
    }
}

/// The accessor indices of one packed mesh.
pub struct MeshIds {
    pub position: u32,
    pub normal: Option<u32>,
    pub uvs: Seq<u32>,
    pub submeshes: Seq<u32>,
}

/// The accessor indices of mesh `m` when its first block gets accessor `base`.
pub open spec fn mesh_ids(base: nat, m: MeshDataView) -> MeshIds {
    let hn: nat = if m.normals.len() > 0 { 1 } else { 0 };
    MeshIds {
        position: base as u32,
        normal: if m.normals.len() > 0 { Some((base + 1) as u32) } else { None },
        uvs: Seq::new(m.uvs.len(), |k: int| (base + 1 + hn + k) as u32),
        submeshes: Seq::new(m.submeshes.len(), |j: int| (base + 1 + hn + m.uvs.len() + j) as u32),
    }
}

/// The accessor indices of mesh `i` of `ms`.
pub open spec fn mesh_ids_at(ms: Seq<MeshDataView>, i: int) -> MeshIds {
    mesh_ids(pack_meshes(ms.take(i)).accessors.len(), ms[i])
}

/// The accessor indices that packing one mesh produced.
pub struct MeshAccessors {
    pub position: u32,
    pub normal: Option<u32>,
    pub uvs: Vec<u32>,
    pub submesh_indices: Vec<u32>,
}

impl View for MeshAccessors {
    type V = MeshIds;

    open spec fn view(&self) -> MeshIds {
        MeshIds { position: self.position, normal: self.normal, uvs: self.uvs@, submeshes: self.submesh_indices@ }
    }
}

/// Pack the blocks of one mesh; returns their accessor indices.
pub fn pack_mesh_data(
    binary: &mut Vec<u8>,
    views: &mut Vec<BufferView>,
    accessors: &mut Vec<Accessor>,
    m: &MeshData,
) -> (ids: MeshAccessors)
    ensures
        packed_of(final(binary)@, final(views)@, final(accessors)@)
            == pack_mesh(packed_of(old(binary)@, old(views)@, old(accessors)@), m@),
        ids@ == mesh_ids(old(accessors)@.len(), m@),
{
    reveal(pack_mesh);
    let ghost p0 = packed_of(binary@, views@, accessors@);
    let ghost base = accessors@.len();
    let narrow = m.positions.len() <= MAX_U16_INDEXED_VERTICES;
    let position = push_vec3(binary, views, accessors, &m.positions, m.positions.len() > 0);
    let normal = if m.normals.len() > 0 {
        Some(push_vec3(binary, views, accessors, &m.normals, false))
    } else {
        None
    };
    let ghost p2 = packed_of(binary@, views@, accessors@);
    let ghost hn: nat = if m@.normals.len() > 0 { 1 } else { 0 };
    assert(p2 == vertex_blocks(p0, m@));
    assert(accessors@.len() == base + 1 + hn);

    let mut uvs: Vec<u32> = Vec::new();
    let mut k: usize = 0;
    assert(m@.uvs.take(0) =~= Seq::<Seq<[u32; 2]>>::empty());
    assert(pack_uv_channels(p2, m@.uvs.take(0)) == p2) by { reveal(pack_uv_channels); }
    while k < m.uvs.len()
        invariant
            k <= m@.uvs.len(),
            m@.uvs.len() == m.uvs@.len(),
            packed_of(binary@, views@, accessors@) == pack_uv_channels(p2, m@.uvs.take(k as int)),
            accessors@.len() == base + 1 + hn + k,
            uvs@ =~= Seq::new(k as nat, |j: int| (base + 1 + hn + j) as u32),
        decreases m@.uvs.len() - k,
    {
        let acc = push_vec2(binary, views, accessors, &m.uvs[k]);
        uvs.push(acc);
        proof {
            lemma_take_step(m@.uvs, k as int);
            assert(m@.uvs[k as int] == m.uvs@[k as int]@);
            reveal(pack_uv_channels);
        }
        k = k + 1;
    }
    assert(m@.uvs.take(m@.uvs.len() as int) =~= m@.uvs);
    let ghost p3 = packed_of(binary@, views@, accessors@);

    let mut submesh_indices: Vec<u32> = Vec::new();
    let mut j: usize = 0;
    assert(m@.submeshes.take(0) =~= Seq::<Seq<u32>>::empty());
    assert(pack_index_lists(p3, m@.submeshes.take(0), narrow) == p3) by { reveal(pack_index_lists); }
    while j < m.submeshes.len()
        invariant
            j <= m@.submeshes.len(),
            m@.submeshes.len() == m.submeshes@.len(),
            narrow == (m@.positions.len() <= MAX_U16_INDEXED_VERTICES),
            packed_of(binary@, views@, accessors@) == pack_index_lists(p3, m@.submeshes.take(j as int), narrow),
            accessors@.len() == base + 1 + hn + m@.uvs.len() + j,
            submesh_indices@ =~= Seq::new(j as nat, |t: int| (base + 1 + hn + m@.uvs.len() + t) as u32),
        decreases m@.submeshes.len() - j,
    {
        let acc = push_indices(binary, views, accessors, &m.submeshes[j].indices, narrow);
        submesh_indices.push(acc);
        proof {
            lemma_take_step(m@.submeshes, j as int);
            assert(m@.submeshes[j as int] == m.submeshes@[j as int].indices@);
            reveal(pack_index_lists);
        }
        j = j + 1;
    }
    assert(m@.submeshes.take(m@.submeshes.len() as int) =~= m@.submeshes);
    MeshAccessors { position, normal, uvs, submesh_indices }
}

} // verus!
