//! Packing only ever appends, so every block that the export packs can be
//! read back, through its accessor and buffer view, from the finished buffer.
use vstd::prelude::*;
use crate::pack::{
    Packed, aligned, index_block, lemma_index_counts, lemma_u16s_bytes_len, lemma_u32s_bytes_len,
    lemma_uv_counts, lemma_vec2_bytes_len, lemma_vec3_bytes_len, narrow_u16, pack_index_lists,
    pack_mesh, pack_meshes, pack_uv_channels, push_block, to_gltf_vec3, vec2_block, vec3_block,
    vertex_blocks, narrow_indices,
};
use crate::primitive::spec_wind;
use crate::resolve::{ResolveError, spec_resolve_accessor};
use crate::schema::{Accessor, AccessorComponentType, AccessorType, BufferViewTarget, spec_byte_size, spec_component_count};
use crate::export_context::MeshDataView;
use crate::mesh::lemma_take_step;
use crate::schema::Attribute;
use crate::primitive::{find_attribute, texcoord_name};
use crate::assemble::{attribute_entries, expected_attributes};
use crate::pack::{MeshIds, mesh_ids, mesh_ids_at, u16s_bytes, u32s_bytes, vec2_bytes, vec3_bytes, MAX_U16_INDEXED_VERTICES};
use crate::text::{decimal, lemma_decimal_injective};

verus! {

/// `q` holds everything `p` holds, and possibly more after it.
pub open spec fn extends(q: Packed, p: Packed) -> bool {
    &&& p.binary.len() <= q.binary.len()
    &&& q.binary.subrange(0, p.binary.len() as int) == p.binary
    &&& p.views.len() <= q.views.len()
    &&& q.views.subrange(0, p.views.len() as int) == p.views
    &&& p.accessors.len() <= q.accessors.len()
    &&& q.accessors.subrange(0, p.accessors.len() as int) == p.accessors
}

pub proof fn lemma_extends_refl(p: Packed)
    ensures
        extends(p, p),
{
    assert(p.binary.subrange(0, p.binary.len() as int) =~= p.binary);
    assert(p.views.subrange(0, p.views.len() as int) =~= p.views);
    assert(p.accessors.subrange(0, p.accessors.len() as int) =~= p.accessors);
}

pub proof fn lemma_extends_trans(r: Packed, q: Packed, p: Packed)
    requires
        extends(r, q),
        extends(q, p),
    ensures
        extends(r, p),
{
    assert(r.binary.subrange(0, p.binary.len() as int) =~= q.binary.subrange(0, p.binary.len() as int));
    assert(r.views.subrange(0, p.views.len() as int) =~= q.views.subrange(0, p.views.len() as int));
    assert(r.accessors.subrange(0, p.accessors.len() as int) =~= q.accessors.subrange(0, p.accessors.len() as int));
}

pub proof fn lemma_push_block_extends(
    p: Packed,
    align: nat,
    data: Seq<u8>,
    ct: AccessorComponentType,
    at: AccessorType,
    count: nat,
    bounded: bool,
    target: BufferViewTarget,
)
    ensures
        extends(push_block(p, align, data, ct, at, count, bounded, target), p),
{
    let q = push_block(p, align, data, ct, at, count, bounded, target);
    let start = aligned(p.binary, align);
    assert(q.binary.subrange(0, p.binary.len() as int) =~= p.binary);
    assert(q.views.subrange(0, p.views.len() as int) =~= p.views);
    assert(q.accessors.subrange(0, p.accessors.len() as int) =~= p.accessors);
}

/// Packing more UV channels extends packing fewer.
pub proof fn lemma_uv_extends(p: Packed, c: Seq<Seq<[u32; 2]>>, k: int)
    requires
        0 <= k <= c.len(),
    ensures
        extends(pack_uv_channels(p, c), pack_uv_channels(p, c.take(k))),
    decreases c.len(),
{
    reveal(pack_uv_channels);
    if k == c.len() {
        assert(c.take(k) =~= c);
        lemma_extends_refl(pack_uv_channels(p, c));
    } else {
        let init = c.drop_last();
        lemma_uv_extends(p, init, k);
        assert(init.take(k) =~= c.take(k));
        lemma_push_block_extends(pack_uv_channels(p, init), 4, crate::pack::vec2_bytes(c.last()),
            AccessorComponentType::Float, AccessorType::Vec2, c.last().len(), false, BufferViewTarget::ArrayBuffer);
        lemma_extends_trans(pack_uv_channels(p, c), pack_uv_channels(p, init), pack_uv_channels(p, c.take(k)));
    }
}

/// An index block extends what it was appended to.
pub proof fn lemma_index_block_extends(p: Packed, indices: Seq<u32>, narrow: bool)
    ensures
        extends(index_block(p, indices, narrow), p),
{
    let w = spec_wind(indices);
    if narrow {
        lemma_push_block_extends(p, 2, crate::pack::u16s_bytes(narrow_u16(w)), AccessorComponentType::UnsignedShort,
            AccessorType::Scalar, w.len(), false, BufferViewTarget::ElementArrayBuffer);
    } else {
        lemma_push_block_extends(p, 4, crate::pack::u32s_bytes(w), AccessorComponentType::UnsignedInt,
            AccessorType::Scalar, w.len(), false, BufferViewTarget::ElementArrayBuffer);
    }
}

/// Packing more index lists extends packing fewer.
pub proof fn lemma_index_extends(p: Packed, l: Seq<Seq<u32>>, narrow: bool, k: int)
    requires
        0 <= k <= l.len(),
    ensures
        extends(pack_index_lists(p, l, narrow), pack_index_lists(p, l.take(k), narrow)),
    decreases l.len(),
{
    reveal(pack_index_lists);
    if k == l.len() {
        assert(l.take(k) =~= l);
        lemma_extends_refl(pack_index_lists(p, l, narrow));
    } else {
        let init = l.drop_last();
        lemma_index_extends(p, init, narrow, k);
        assert(init.take(k) =~= l.take(k));
        lemma_index_block_extends(pack_index_lists(p, init, narrow), l.last(), narrow);
        lemma_extends_trans(pack_index_lists(p, l, narrow), pack_index_lists(p, init, narrow), pack_index_lists(p, l.take(k), narrow));
    }
}

/// A block reads back from any packing that extends it: its accessor is the
/// one the block added, and resolving it against the buffer views and the
/// buffer gives the block's data.
pub proof fn lemma_block_reads_back(
    p: Packed,
    align: nat,
    data: Seq<u8>,
    ct: AccessorComponentType,
    at: AccessorType,
    count: nat,
    bounded: bool,
    target: BufferViewTarget,
    big: Packed,
    bin: Vec<u8>,
)
    requires
        count * (spec_byte_size(ct) * spec_component_count(at)) == data.len(),
        extends(big, push_block(p, align, data, ct, at, count, bounded, target)),
        bin@ == big.binary,
        big.binary.len() <= u32::MAX,
        big.views.len() <= u32::MAX,
    ensures
        big.accessors[p.accessors.len() as int] == (Accessor {
            buffer_view: Some(p.views.len() as u32),
            byte_offset: None,
            component_type: ct,
            count: count as u32,
            accessor_type: at,
            bounded,
        }),
        spec_resolve_accessor(big.accessors[p.accessors.len() as int], big.views, seq![bin])
            == Ok::<Seq<u8>, ResolveError>(data),
{
    let q = push_block(p, align, data, ct, at, count, bounded, target);
    let start = aligned(p.binary, align);
    let elem = spec_byte_size(ct) * spec_component_count(at);
    assert(q.accessors[p.accessors.len() as int] == big.accessors.subrange(0, q.accessors.len() as int)[p.accessors.len() as int]);
    assert(q.views[p.views.len() as int] == big.views.subrange(0, q.views.len() as int)[p.views.len() as int]);
    assert(elem >= 1);
    assert(count <= data.len()) by (nonlinear_arith)
        requires count * elem == data.len(), elem >= 1;
    assert(q.binary.len() == start.len() + data.len());
    assert(start.len() + data.len() <= u32::MAX);
    let acc = big.accessors[p.accessors.len() as int];
    let bv = big.views[p.views.len() as int];
    assert(acc.count == count);
    assert(bv.byte_offset == start.len());
    assert(spec_byte_size(acc.component_type) * spec_component_count(acc.accessor_type) == elem);
    assert(big.binary.subrange(start.len() as int, (start.len() + data.len()) as int)
        =~= q.binary.subrange(start.len() as int, (start.len() + data.len()) as int));
    assert(q.binary.subrange(start.len() as int, (start.len() + data.len()) as int) =~= data);
}

// ---- attribute lookups ------------------------------------------------------------

/// The accessor of the first entry named `name`.
pub open spec fn find_entry(e: Seq<(Seq<char>, u32)>, name: Seq<char>) -> Option<u32>
    decreases e.len(),
{
    if e.len() == 0 {
        None
    } else if e[0].0 == name {
        Some(e[0].1)
    } else {
        find_entry(e.drop_first(), name)
    }
}

/// Looking an attribute up is looking its entry up.
pub proof fn lemma_find_attribute_entries(attrs: Seq<Attribute>, name: Seq<char>)
    ensures
        find_attribute(attrs, name) == find_entry(attribute_entries(attrs), name),
    decreases attrs.len(),
{
    if attrs.len() > 0 {
        assert(attribute_entries(attrs.drop_first()) =~= attribute_entries(attrs).drop_first());
        lemma_find_attribute_entries(attrs.drop_first(), name);
    }
}

/// The first entry named `name` is at `k`.
pub proof fn lemma_find_entry_at(e: Seq<(Seq<char>, u32)>, name: Seq<char>, k: int)
    requires
        0 <= k < e.len(),
        e[k].0 == name,
        forall|t: int| 0 <= t < k ==> e[t].0 != name,
    ensures
        find_entry(e, name) == Some(e[k].1),
    decreases k,
{
    if k > 0 {
        assert forall|t: int| 0 <= t < k - 1 implies e.drop_first()[t].0 != name by {
            assert(e.drop_first()[t] == e[t + 1]);
        }
        lemma_find_entry_at(e.drop_first(), name, k - 1);
    }
}

/// No entry is named `name`.
pub proof fn lemma_find_entry_absent(e: Seq<(Seq<char>, u32)>, name: Seq<char>)
    requires
        forall|t: int| 0 <= t < e.len() ==> e[t].0 != name,
    ensures
        find_entry(e, name) is None,
    decreases e.len(),
{
    if e.len() > 0 {
        assert forall|t: int| 0 <= t < e.len() - 1 implies e.drop_first()[t].0 != name by {
            assert(e.drop_first()[t] == e[t + 1]);
        }
        lemma_find_entry_absent(e.drop_first(), name);
    }
}

/// The attribute names of an exported primitive differ from one another and
/// from `TANGENT`.
pub proof fn lemma_attribute_names_differ(k: nat, t: nat)
    ensures
        texcoord_name(k) != "POSITION"@,
        texcoord_name(k) != "NORMAL"@,
        texcoord_name(k) != "TANGENT"@,
        "NORMAL"@ != "POSITION"@,
        "TANGENT"@ != "POSITION"@,
        "TANGENT"@ != "NORMAL"@,
        k != t ==> texcoord_name(k) != texcoord_name(t),
{
    reveal_strlit("POSITION");
    reveal_strlit("NORMAL");
    reveal_strlit("TANGENT");
    reveal_strlit("TEXCOORD_");
    let p = "TEXCOORD_"@;
    assert(texcoord_name(k)[0] == p[0] && texcoord_name(k)[1] == p[1]);
    assert("POSITION"@[0] != p[0]);
    assert("NORMAL"@[0] != p[0]);
    assert("TANGENT"@[1] != p[1]);
    assert("NORMAL"@.len() != "POSITION"@.len());
    assert("TANGENT"@.len() != "POSITION"@.len());
    assert("TANGENT"@.len() != "NORMAL"@.len());
    if k != t && texcoord_name(k) == texcoord_name(t) {
        assert(texcoord_name(k).skip(9) =~= decimal(k));
        assert(texcoord_name(t).skip(9) =~= decimal(t));
        lemma_decimal_injective(k, t);
    }
}

/// No two attributes of an exported primitive share a name.
pub proof fn lemma_expected_names_distinct(ids: MeshIds)
    ensures
        forall|i: int, j: int| 0 <= i < j < expected_attributes(ids).len()
            ==> (#[trigger] expected_attributes(ids)[i]).0 != (#[trigger] expected_attributes(ids)[j]).0,
{
    let e = expected_attributes(ids);
    let hn: int = if ids.normal is Some { 1 } else { 0 };
    assert(e.len() == 1 + hn + ids.uvs.len());
    assert(e[0] == ("POSITION"@, ids.position));
    assert(ids.normal is Some ==> e[1] == ("NORMAL"@, ids.normal->0));
    assert(forall|t: int| 0 <= t < ids.uvs.len() ==> #[trigger] e[1 + hn + t] == (texcoord_name(t as nat), ids.uvs[t]));
    assert forall|i: int, j: int| 0 <= i < j < e.len() implies (#[trigger] e[i]).0 != (#[trigger] e[j]).0 by {
        lemma_attribute_names_differ(0, 0);
        if j >= 1 + hn {
            assert(e[1 + hn + (j - 1 - hn)] == e[j]);
            lemma_attribute_names_differ((j - 1 - hn) as nat, 0);
            if i >= 1 + hn {
                assert(e[1 + hn + (i - 1 - hn)] == e[i]);
                lemma_attribute_names_differ((j - 1 - hn) as nat, (i - 1 - hn) as nat);
            }
        }
    }
}

/// Where each attribute of an exported primitive is found.
pub proof fn lemma_expected_lookups(ids: MeshIds)
    ensures
        find_entry(expected_attributes(ids), "POSITION"@) == Some(ids.position),
        find_entry(expected_attributes(ids), "NORMAL"@) == ids.normal,
        find_entry(expected_attributes(ids), "TANGENT"@) is None,
        forall|k: nat| k < ids.uvs.len() ==> find_entry(expected_attributes(ids), #[trigger] texcoord_name(k)) == Some(ids.uvs[k as int]),
        forall|k: nat| k >= ids.uvs.len() ==> find_entry(expected_attributes(ids), #[trigger] texcoord_name(k)) is None,
{
    let e = expected_attributes(ids);
    let hn: int = if ids.normal is Some { 1 } else { 0 };
    assert(e.len() == 1 + hn + ids.uvs.len());
    assert(e[0] == ("POSITION"@, ids.position));
    assert(ids.normal is Some ==> e[1] == ("NORMAL"@, ids.normal->0));
    assert(forall|t: int| 0 <= t < ids.uvs.len() ==> #[trigger] e[1 + hn + t] == (texcoord_name(t as nat), ids.uvs[t]));
    lemma_attribute_names_differ(0, 0);
    lemma_find_entry_at(e, "POSITION"@, 0);
    assert forall|t: int| 0 <= t < e.len() && t >= 1 + hn implies e[t].0 != "NORMAL"@ && e[t].0 != "TANGENT"@ by {
        assert(e[1 + hn + (t - 1 - hn)] == e[t]);
        lemma_attribute_names_differ((t - 1 - hn) as nat, 0);
    }
    if ids.normal is Some {
        lemma_find_entry_at(e, "NORMAL"@, 1);
    } else {
        lemma_find_entry_absent(e, "NORMAL"@);
    }
    lemma_find_entry_absent(e, "TANGENT"@);
    assert forall|k: nat| k < ids.uvs.len() implies find_entry(e, #[trigger] texcoord_name(k)) == Some(ids.uvs[k as int]) by {
        assert forall|t: int| 0 <= t < 1 + hn + k implies e[t].0 != texcoord_name(k) by {
            lemma_attribute_names_differ(k, 0);
            if t >= 1 + hn {
                assert(e[1 + hn + (t - 1 - hn)] == e[t]);
                lemma_attribute_names_differ(k, (t - 1 - hn) as nat);
            }
        }
        assert(e[1 + hn + k] == (texcoord_name(k), ids.uvs[k as int]));
        lemma_find_entry_at(e, texcoord_name(k), 1 + hn + k);
    }
    assert forall|k: nat| k >= ids.uvs.len() implies find_entry(e, #[trigger] texcoord_name(k)) is None by {
        assert forall|t: int| 0 <= t < e.len() implies e[t].0 != texcoord_name(k) by {
            lemma_attribute_names_differ(k, 0);
            if t >= 1 + hn {
                assert(e[1 + hn + (t - 1 - hn)] == e[t]);
                lemma_attribute_names_differ(k, (t - 1 - hn) as nat);
            }
        }
        lemma_find_entry_absent(e, texcoord_name(k));
    }
}

// ---- the blocks of a mesh -------------------------------------------------------------

/// The position and normal blocks add one accessor each.
pub proof fn lemma_vertex_blocks(p: Packed, m: MeshDataView)
    ensures
        vertex_blocks(p, m).accessors.len() == p.accessors.len() + 1 + (if m.normals.len() > 0 { 1int } else { 0 }),
        vertex_blocks(p, m).views.len() == p.views.len() + 1 + (if m.normals.len() > 0 { 1int } else { 0 }),
        extends(vertex_blocks(p, m), vec3_block(p, m.positions, m.positions.len() > 0)),
{
    let p1 = vec3_block(p, m.positions, m.positions.len() > 0);
    if m.normals.len() > 0 {
        lemma_push_block_extends(p1, 4, vec3_bytes(to_gltf_vec3(m.normals)), AccessorComponentType::Float,
            AccessorType::Vec3, m.normals.len(), false, BufferViewTarget::ArrayBuffer);
    } else {
        lemma_extends_refl(p1);
    }
}

/// Every block adds one buffer view and one accessor.
pub proof fn lemma_pack_mesh_counts(p: Packed, m: MeshDataView)
    ensures
        pack_mesh(p, m).views.len() == p.views.len() + 1 + (if m.normals.len() > 0 { 1int } else { 0 }) + m.uvs.len() + m.submeshes.len(),
        pack_mesh(p, m).accessors.len() == p.accessors.len() + 1 + (if m.normals.len() > 0 { 1int } else { 0 }) + m.uvs.len() + m.submeshes.len(),
{
    reveal(pack_mesh);
    let vb = vertex_blocks(p, m);
    lemma_vertex_blocks(p, m);
    lemma_uv_counts(vb, m.uvs);
    lemma_index_counts(pack_uv_channels(vb, m.uvs), m.submeshes, narrow_indices(m));
}

/// The packing of a mesh extends every stage of it.
pub proof fn lemma_pack_mesh_stages(p: Packed, m: MeshDataView)
    ensures
        extends(pack_mesh(p, m), vertex_blocks(p, m)),
        forall|k: int| 0 <= k <= m.uvs.len() ==> extends(pack_mesh(p, m), #[trigger] pack_uv_channels(vertex_blocks(p, m), m.uvs.take(k))),
        forall|j: int| 0 <= j <= m.submeshes.len() ==> extends(pack_mesh(p, m),
            #[trigger] pack_index_lists(pack_uv_channels(vertex_blocks(p, m), m.uvs), m.submeshes.take(j), narrow_indices(m))),
{
    reveal(pack_mesh);
    let vb = vertex_blocks(p, m);
    let p3 = pack_uv_channels(vb, m.uvs);
    let pm = pack_mesh(p, m);
    assert forall|j: int| 0 <= j <= m.submeshes.len() implies extends(pm,
        #[trigger] pack_index_lists(p3, m.submeshes.take(j), narrow_indices(m))) by {
        lemma_index_extends(p3, m.submeshes, narrow_indices(m), j);
    }
    lemma_index_extends(p3, m.submeshes, narrow_indices(m), 0);
    assert(m.submeshes.take(0) =~= Seq::<Seq<u32>>::empty());
    assert(pack_index_lists(p3, m.submeshes.take(0), narrow_indices(m)) == p3) by { reveal(pack_index_lists); }
    assert forall|k: int| 0 <= k <= m.uvs.len() implies extends(pm, #[trigger] pack_uv_channels(vb, m.uvs.take(k))) by {
        lemma_uv_extends(vb, m.uvs, k);
        lemma_extends_trans(pm, p3, pack_uv_channels(vb, m.uvs.take(k)));
    }
    lemma_uv_extends(vb, m.uvs, 0);
    assert(m.uvs.take(0) =~= Seq::<Seq<[u32; 2]>>::empty());
    assert(pack_uv_channels(vb, m.uvs.take(0)) == vb) by { reveal(pack_uv_channels); }
    lemma_extends_trans(pm, p3, vb);
}

/// The packing of a mesh extends what it was appended to.
pub proof fn lemma_pack_mesh_extends(p: Packed, m: MeshDataView)
    ensures
        extends(pack_mesh(p, m), p),
{
    lemma_pack_mesh_stages(p, m);
    lemma_vertex_blocks(p, m);
    lemma_push_block_extends(p, 4, vec3_bytes(to_gltf_vec3(m.positions)), AccessorComponentType::Float,
        AccessorType::Vec3, m.positions.len(), m.positions.len() > 0, BufferViewTarget::ArrayBuffer);
    lemma_extends_trans(vertex_blocks(p, m), vec3_block(p, m.positions, m.positions.len() > 0), p);
    lemma_extends_trans(pack_mesh(p, m), vertex_blocks(p, m), p);
}

/// Packing all meshes extends packing the first `i`.
pub proof fn lemma_pack_meshes_extends(ms: Seq<MeshDataView>, i: int)
    requires
        0 <= i <= ms.len(),
    ensures
        extends(pack_meshes(ms), pack_meshes(ms.take(i))),
    decreases ms.len(),
{
    reveal(pack_meshes);
    if i == ms.len() {
        assert(ms.take(i) =~= ms);
        lemma_extends_refl(pack_meshes(ms));
    } else {
        let init = ms.drop_last();
        lemma_pack_meshes_extends(init, i);
        assert(init.take(i) =~= ms.take(i));
        lemma_pack_mesh_extends(pack_meshes(init), ms.last());
        lemma_extends_trans(pack_meshes(ms), pack_meshes(init), pack_meshes(ms.take(i)));
    }
}

/// There are as many accessors as buffer views.
pub proof fn lemma_pack_meshes_balanced(ms: Seq<MeshDataView>)
    ensures
        pack_meshes(ms).views.len() == pack_meshes(ms).accessors.len(),
    decreases ms.len(),
{
    reveal(pack_meshes);
    if ms.len() > 0 {
        lemma_pack_meshes_balanced(ms.drop_last());
        lemma_pack_mesh_counts(pack_meshes(ms.drop_last()), ms.last());
    }
}

/// The component type of an exported index block.
pub open spec fn index_component_type(narrow: bool) -> AccessorComponentType {
    if narrow { AccessorComponentType::UnsignedShort } else { AccessorComponentType::UnsignedInt }
}

/// The bytes of an exported index block.
pub open spec fn index_bytes(indices: Seq<u32>, narrow: bool) -> Seq<u8> {
    if narrow { u16s_bytes(narrow_u16(spec_wind(indices))) } else { u32s_bytes(spec_wind(indices)) }
}

/// The accessor `a` of `big` is in range, holds `at` elements of `ct`
/// components, and resolves to `data`.
pub open spec fn reads_back(big: Packed, bin: Vec<u8>, a: u32, ct: AccessorComponentType, at: AccessorType, data: Seq<u8>) -> bool {
    &&& (a as int) < big.accessors.len()
    &&& big.accessors[a as int].component_type == ct
    &&& big.accessors[a as int].accessor_type == at
    &&& spec_resolve_accessor(big.accessors[a as int], big.views, seq![bin]) == Ok::<Seq<u8>, ResolveError>(data)
}

/// A UV block reads back from any packing that extends it.
pub proof fn lemma_uv_block_reads_back(before: Packed, uv: Seq<[u32; 2]>, big: Packed, bin: Vec<u8>)
    requires
        extends(big, vec2_block(before, uv)),
        bin@ == big.binary,
        big.binary.len() <= u32::MAX,
        big.views.len() <= u32::MAX,
        big.accessors.len() == big.views.len(),
        before.accessors.len() < big.accessors.len(),
    ensures
        reads_back(big, bin, before.accessors.len() as u32, AccessorComponentType::Float, AccessorType::Vec2, vec2_bytes(uv)),
{
    lemma_vec2_bytes_len(uv);
    assert(spec_byte_size(AccessorComponentType::Float) * spec_component_count(AccessorType::Vec2) == 8);
    assert(uv.len() * 8 == vec2_bytes(uv).len());
    lemma_block_reads_back(before, 4, vec2_bytes(uv), AccessorComponentType::Float,
        AccessorType::Vec2, uv.len(), false, BufferViewTarget::ArrayBuffer, big, bin);
}

/// An index block reads back from any packing that extends it.
pub proof fn lemma_index_block_reads_back(before: Packed, indices: Seq<u32>, narrow: bool, big: Packed, bin: Vec<u8>)
    requires
        extends(big, index_block(before, indices, narrow)),
        bin@ == big.binary,
        big.binary.len() <= u32::MAX,
        big.views.len() <= u32::MAX,
        big.accessors.len() == big.views.len(),
        before.accessors.len() < big.accessors.len(),
    ensures
        reads_back(big, bin, before.accessors.len() as u32, index_component_type(narrow), AccessorType::Scalar, index_bytes(indices, narrow)),
{
    let w = spec_wind(indices);
    if narrow {
        lemma_u16s_bytes_len(narrow_u16(w));
        assert(spec_byte_size(AccessorComponentType::UnsignedShort) * spec_component_count(AccessorType::Scalar) == 2);
        assert(narrow_u16(w).len() == w.len());
        assert(w.len() * 2 == u16s_bytes(narrow_u16(w)).len());
        lemma_block_reads_back(before, 2, u16s_bytes(narrow_u16(w)), AccessorComponentType::UnsignedShort,
            AccessorType::Scalar, w.len(), false, BufferViewTarget::ElementArrayBuffer, big, bin);
    } else {
        lemma_u32s_bytes_len(w);
        assert(spec_byte_size(AccessorComponentType::UnsignedInt) * spec_component_count(AccessorType::Scalar) == 4);
        assert(w.len() * 4 == u32s_bytes(w).len());
        lemma_block_reads_back(before, 4, u32s_bytes(w), AccessorComponentType::UnsignedInt,
            AccessorType::Scalar, w.len(), false, BufferViewTarget::ElementArrayBuffer, big, bin);
    }
}

/// The facts about mesh `i` that every part of the read-back proof uses.
pub proof fn lemma_mesh_setup(ms: Seq<MeshDataView>, i: int)
    requires
        0 <= i < ms.len(),
    ensures
        extends(pack_meshes(ms), pack_mesh(pack_meshes(ms.take(i)), ms[i])),
        pack_meshes(ms).views.len() == pack_meshes(ms).accessors.len(),
        pack_mesh(pack_meshes(ms.take(i)), ms[i]).accessors.len() <= pack_meshes(ms).accessors.len(),
        pack_meshes(ms.take(i)).accessors.len() + 1 + (if ms[i].normals.len() > 0 { 1int } else { 0 })
            + ms[i].uvs.len() + ms[i].submeshes.len() <= pack_meshes(ms).accessors.len(),
        mesh_ids_at(ms, i) == mesh_ids(pack_meshes(ms.take(i)).accessors.len(), ms[i]),
{
    let p0 = pack_meshes(ms.take(i));
    lemma_take_step(ms, i);
    assert(pack_meshes(ms.take(i + 1)) == pack_mesh(p0, ms[i])) by { reveal(pack_meshes); }
    lemma_pack_meshes_extends(ms, i + 1);
    lemma_pack_meshes_balanced(ms);
    lemma_pack_mesh_counts(p0, ms[i]);
}

/// The position and normal blocks of mesh `i` read back.
pub proof fn lemma_vertices_read_back(ms: Seq<MeshDataView>, i: int, bin: Vec<u8>)
    requires
        0 <= i < ms.len(),
        bin@ == pack_meshes(ms).binary,
        bin@.len() <= u32::MAX,
        pack_meshes(ms).views.len() <= u32::MAX,
    ensures
        reads_back(pack_meshes(ms), bin, mesh_ids_at(ms, i).position, AccessorComponentType::Float, AccessorType::Vec3,
            vec3_bytes(to_gltf_vec3(ms[i].positions))),
        ms[i].normals.len() > 0 ==> mesh_ids_at(ms, i).normal is Some && reads_back(pack_meshes(ms), bin,
            mesh_ids_at(ms, i).normal->0, AccessorComponentType::Float, AccessorType::Vec3, vec3_bytes(to_gltf_vec3(ms[i].normals))),
        ms[i].normals.len() == 0 ==> mesh_ids_at(ms, i).normal is None,
{
    let big = pack_meshes(ms);
    let m = ms[i];
    let p0 = pack_meshes(ms.take(i));
    let p1 = vec3_block(p0, m.positions, m.positions.len() > 0);
    let vb = vertex_blocks(p0, m);
    lemma_mesh_setup(ms, i);
    lemma_pack_mesh_stages(p0, m);
    lemma_vertex_blocks(p0, m);
    lemma_extends_trans(big, pack_mesh(p0, m), vb);
    lemma_extends_trans(big, vb, p1);
    lemma_vec3_bytes_len(to_gltf_vec3(m.positions));
    assert(spec_byte_size(AccessorComponentType::Float) * spec_component_count(AccessorType::Vec3) == 12);
    assert(m.positions.len() * 12 == vec3_bytes(to_gltf_vec3(m.positions)).len());
    lemma_block_reads_back(p0, 4, vec3_bytes(to_gltf_vec3(m.positions)), AccessorComponentType::Float,
        AccessorType::Vec3, m.positions.len(), m.positions.len() > 0, BufferViewTarget::ArrayBuffer, big, bin);
    if m.normals.len() > 0 {
        lemma_vec3_bytes_len(to_gltf_vec3(m.normals));
        assert(m.normals.len() * 12 == vec3_bytes(to_gltf_vec3(m.normals)).len());
        lemma_block_reads_back(p1, 4, vec3_bytes(to_gltf_vec3(m.normals)), AccessorComponentType::Float,
            AccessorType::Vec3, m.normals.len(), false, BufferViewTarget::ArrayBuffer, big, bin);
    }
}

/// The block of UV channel `k` of mesh `i` reads back.
pub proof fn lemma_uv_reads_back(ms: Seq<MeshDataView>, i: int, bin: Vec<u8>, k: int)
    requires
        0 <= i < ms.len(),
        0 <= k < ms[i].uvs.len(),
        bin@ == pack_meshes(ms).binary,
        bin@.len() <= u32::MAX,
        pack_meshes(ms).views.len() <= u32::MAX,
    ensures
        reads_back(pack_meshes(ms), bin, mesh_ids_at(ms, i).uvs[k], AccessorComponentType::Float, AccessorType::Vec2, vec2_bytes(ms[i].uvs[k])),
{
    let big = pack_meshes(ms);
    let m = ms[i];
    let p0 = pack_meshes(ms.take(i));
    let vb = vertex_blocks(p0, m);
    let before = pack_uv_channels(vb, m.uvs.take(k));
    let after = pack_uv_channels(vb, m.uvs.take(k + 1));
    lemma_mesh_setup(ms, i);
    lemma_pack_mesh_stages(p0, m);
    lemma_vertex_blocks(p0, m);
    lemma_take_step(m.uvs, k);
    assert(after == vec2_block(before, m.uvs[k])) by { reveal(pack_uv_channels); }
    lemma_extends_trans(big, pack_mesh(p0, m), after);
    lemma_uv_counts(vb, m.uvs.take(k));
    lemma_uv_block_reads_back(before, m.uvs[k], big, bin);
}

/// The index block of sub-mesh `j` of mesh `i` reads back.
pub proof fn lemma_index_reads_back(ms: Seq<MeshDataView>, i: int, bin: Vec<u8>, j: int)
    requires
        0 <= i < ms.len(),
        0 <= j < ms[i].submeshes.len(),
        bin@ == pack_meshes(ms).binary,
        bin@.len() <= u32::MAX,
        pack_meshes(ms).views.len() <= u32::MAX,
    ensures
        reads_back(pack_meshes(ms), bin, mesh_ids_at(ms, i).submeshes[j],
            index_component_type(narrow_indices(ms[i])), AccessorType::Scalar,
            index_bytes(ms[i].submeshes[j], narrow_indices(ms[i]))),
{
    let big = pack_meshes(ms);
    let m = ms[i];
    let narrow = narrow_indices(m);
    let p0 = pack_meshes(ms.take(i));
    let vb = vertex_blocks(p0, m);
    let p3 = pack_uv_channels(vb, m.uvs);
    let before = pack_index_lists(p3, m.submeshes.take(j), narrow);
    let after = pack_index_lists(p3, m.submeshes.take(j + 1), narrow);
    lemma_mesh_setup(ms, i);
    lemma_pack_mesh_stages(p0, m);
    lemma_vertex_blocks(p0, m);
    lemma_uv_counts(vb, m.uvs);
    lemma_take_step(m.submeshes, j);
    assert(after == index_block(before, m.submeshes[j], narrow)) by { reveal(pack_index_lists); }
    lemma_extends_trans(big, pack_mesh(p0, m), after);
    lemma_index_counts(p3, m.submeshes.take(j), narrow);
    lemma_index_block_reads_back(before, m.submeshes[j], narrow, big, bin);
}

} // verus!
