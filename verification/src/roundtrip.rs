//! What the import reads back of what the export writes.
use vstd::prelude::*;
use crate::bits::{spec_neg, spec_is_zero, spec_is_negative, F32_ONE, F32_ZERO};
use crate::assemble::{canon, canon_quat, node_matches};
use crate::export_context::NodeDataView;
use crate::schema::Node;
use crate::unity_gltf::spec_node_transform;
use crate::unity_core::spec_identity;
use crate::decode::{spec_vec2, spec_vec3_flip_x};
use crate::pack::{
    lemma_u16s_bytes_len, lemma_u16s_bytes_read, lemma_u32s_bytes_len, lemma_u32s_bytes_read,
    lemma_vec2_bytes_len, lemma_vec2_bytes_read, lemma_vec3_bytes_len, lemma_vec3_bytes_read,
    narrow_u16, to_gltf_vec3, u16s_bytes, u32s_bytes, vec2_bytes, vec3_bytes,
};
use crate::primitive::{spec_decode_indices, spec_wind, wind_corner};
use crate::schema::AccessorComponentType;
use crate::error::ConvertError;
use crate::assemble::{mesh_matches, spec_built};
use crate::export_context::ExportContextView;
use crate::pack::{mesh_ids_at, pack_meshes, MAX_U16_INDEXED_VERTICES};
use crate::primitive::{PrimitiveDataView, spec_primitive_data, spec_prim_uvs, spec_resolve_primitive, spec_prim_normals, spec_prim_tangents, texcoord_name};
use crate::readback::{
    index_bytes, lemma_expected_lookups, lemma_find_attribute_entries, lemma_index_reads_back,
    lemma_uv_reads_back, lemma_vertices_read_back,
};
use crate::schema::{Gltf, attributes_distinct, distinct_semantics, entries};
use crate::mesh::{mesh_resolves, mesh_data, concat_positions, concat_normals, vertex_base, spec_sub_mesh, has_all_tangents, MAX_U16_VERTICES};
use crate::unity_gltf::{spec_unity_mesh, spec_game_object, spec_root_nodes, default_scene};
use crate::assemble::{children_of, roots_of};
use crate::text::decimal;
use crate::unity_core::IndicesView;
use crate::unity_gltf::doc_resolves;

verus! {

/// Negating a float twice gives it back.
pub proof fn lemma_neg_neg(x: u32)
    ensures
        spec_neg(spec_neg(x)) == x,
{
    assert((x ^ 0x8000_0000u32) ^ 0x8000_0000u32 == x) by (bit_vector);
}

/// Decoding exported positions or normals (as the import does: X negated)
/// gives back the Unity vectors.
pub proof fn law_vec3_roundtrip(s: Seq<[u32; 3]>)
    ensures
        spec_vec3_flip_x(vec3_bytes(to_gltf_vec3(s))) == s,
{
    let g = to_gltf_vec3(s);
    let b = vec3_bytes(g);
    lemma_vec3_bytes_len(g);
    let r = spec_vec3_flip_x(b);
    assert(r.len() == s.len()) by (nonlinear_arith)
        requires r.len() == b.len() / 12, b.len() == 12 * g.len(), g.len() == s.len();
    assert forall|i: int| 0 <= i < s.len() implies r[i] == s[i] by {
        lemma_vec3_bytes_read(g, i, 0);
        lemma_vec3_bytes_read(g, i, 1);
        lemma_vec3_bytes_read(g, i, 2);
        lemma_neg_neg(s[i][0]);
        assert(r[i][0] == s[i][0] && r[i][1] == s[i][1] && r[i][2] == s[i][2]);
        assert(r[i] =~= s[i]);
    }
    assert(r =~= s);
}

/// Decoding exported texture coordinates gives them back.
pub proof fn law_vec2_roundtrip(s: Seq<[u32; 2]>)
    ensures
        spec_vec2(vec2_bytes(s)) == s,
{
    let b = vec2_bytes(s);
    lemma_vec2_bytes_len(s);
    let r = spec_vec2(b);
    assert(r.len() == s.len()) by (nonlinear_arith)
        requires r.len() == b.len() / 8, b.len() == 8 * s.len();
    assert forall|i: int| 0 <= i < s.len() implies r[i] == s[i] by {
        lemma_vec2_bytes_read(s, i, 0);
        lemma_vec2_bytes_read(s, i, 1);
        assert(r[i] =~= s[i]);
    }
    assert(r =~= s);
}

/// Decoding exported `u32` indices gives them back.
pub proof fn law_u32_indices_roundtrip(w: Seq<u32>)
    ensures
        spec_decode_indices(u32s_bytes(w), AccessorComponentType::UnsignedInt) == Ok::<Seq<u32>, ConvertError>(w),
{
    let b = u32s_bytes(w);
    lemma_u32s_bytes_len(w);
    let r = Seq::new(b.len() / 4, |i: int| crate::decode::u32_at(b, 4 * i));
    assert(r.len() == w.len());
    assert forall|i: int| 0 <= i < w.len() implies r[i] == w[i] by {
        lemma_u32s_bytes_read(w, i);
    }
    assert(r =~= w);
}

/// Decoding exported `u16` indices gives them back when each fits in 16 bits.
pub proof fn law_u16_indices_roundtrip(w: Seq<u32>)
    requires
        forall|i: int| 0 <= i < w.len() ==> w[i] <= 0xFFFF,
    ensures
        spec_decode_indices(u16s_bytes(narrow_u16(w)), AccessorComponentType::UnsignedShort) == Ok::<Seq<u32>, ConvertError>(w),
{
    let n = narrow_u16(w);
    let b = u16s_bytes(n);
    lemma_u16s_bytes_len(n);
    let r = Seq::new(b.len() / 2, |i: int| crate::decode::u16_at(b, 2 * i) as u32);
    assert(r.len() == w.len());
    assert forall|i: int| 0 <= i < w.len() implies r[i] == w[i] by {
        lemma_u16s_bytes_read(n, i);
        let x = w[i];
        assert(x <= 0xFFFF);
        assert((x as u16) as u32 == x) by (bit_vector)
            requires x <= 0xFFFF;
    }
    assert(r =~= w);
}

/// Reversing the winding twice gives back the complete triangles.
pub proof fn law_wind_involution(s: Seq<u32>)
    ensures
        spec_wind(spec_wind(s)) == s.take((s.len() / 3 * 3) as int),
{
    let w = spec_wind(s);
    let n = s.len() / 3 * 3;
    assert(w.len() == n);
    assert(n / 3 * 3 == n) by (nonlinear_arith)
        requires n == s.len() / 3 * 3;
    let ww = spec_wind(w);
    assert(ww.len() == n);
    assert forall|i: int| 0 <= i < n implies ww[i] == s[i] by {
        let t = i / 3;
        let k = i % 3;
        let j = 3 * t + wind_corner(k);
        assert(0 <= k < 3 && i == 3 * t + k);
        assert(j / 3 == t && j % 3 == wind_corner(k));
        assert(0 <= j < n);
        assert(wind_corner(wind_corner(k)) == k);
        assert(ww[i] == w[j]);
        assert(w[j] == s[3 * (j / 3) + wind_corner(j % 3)]);
    }
    assert(ww =~= s.take(n as int));
}

/// Reversing the winding keeps every index value of the complete triangles.
pub proof fn lemma_wind_values(s: Seq<u32>, bound: u32)
    requires
        forall|t: int| 0 <= t < s.len() ==> s[t] <= bound,
    ensures
        forall|t: int| 0 <= t < spec_wind(s).len() ==> spec_wind(s)[t] <= bound,
{
    assert forall|t: int| 0 <= t < spec_wind(s).len() implies spec_wind(s)[t] <= bound by {
        let j = 3 * (t / 3) + wind_corner(t % 3);
        assert(0 <= j < s.len());
    }
}

/// Importing what the export wrote gives the mesh back: each primitive of an
/// exported mesh resolves, through the import's own lookups and decoding, to
/// the mesh's positions, its normals (none when it had none), no tangents,
/// the complete triangles of its sub-mesh in Unity's winding, each of its UV
/// channels, and no further UV channel.
pub proof fn law_export_import_roundtrip(
    ctx: ExportContextView,
    bin_uri: Option<Seq<char>>,
    g: Gltf,
    bin: Vec<u8>,
    i: int,
    j: int,
)
    requires
        spec_built(ctx, bin_uri, g, bin@),
        0 <= i < ctx.meshes.len(),
        0 <= j < ctx.meshes[i].submeshes.len(),
        bin@.len() <= u32::MAX,
        entries(g.buffer_views).len() <= u32::MAX,
        ctx.meshes[i].positions.len() <= MAX_U16_INDEXED_VERTICES ==> forall|t: int|
            0 <= t < ctx.meshes[i].submeshes[j].len() ==> ctx.meshes[i].submeshes[j][t] <= 0xFFFF,
    ensures
        ({
            let m = ctx.meshes[i];
            let sub = m.submeshes[j];
            let prim = entries(g.meshes)[i].primitives@[j];
            let accessors = entries(g.accessors);
            let views = entries(g.buffer_views);
            &&& spec_primitive_data(prim, accessors, views, seq![bin]) == Ok::<PrimitiveDataView, ConvertError>(PrimitiveDataView {
                positions: m.positions,
                normals: if m.normals.len() > 0 { Some(m.normals) } else { None },
                tangents: None,
                wound: sub.take((sub.len() / 3 * 3) as int),
            })
            &&& forall|k: nat| k < m.uvs.len() ==> #[trigger] spec_prim_uvs(prim, k, accessors, views, seq![bin]) == Some(m.uvs[k as int])
            &&& forall|k: nat| k >= m.uvs.len() ==> #[trigger] spec_prim_uvs(prim, k, accessors, views, seq![bin]) is None
        }),
{
    let ms = ctx.meshes;
    let big = pack_meshes(ms);
    let m = ms[i];
    let sub = m.submeshes[j];
    let ids = mesh_ids_at(ms, i);
    let narrow = m.positions.len() <= MAX_U16_INDEXED_VERTICES;
    let prim = entries(g.meshes)[i].primitives@[j];
    let accessors = entries(g.accessors);
    let views = entries(g.buffer_views);
    let bufs = seq![bin];
    assert(accessors == big.accessors);
    assert(views == big.views);
    assert(mesh_matches(entries(g.meshes)[i], m, ids));
    assert(prim.indices == Some(ids.submeshes[j]));
    lemma_vertices_read_back(ms, i, bin);
    lemma_index_reads_back(ms, i, bin, j);
    lemma_expected_lookups(ids);
    lemma_find_attribute_entries(prim.attributes@, "POSITION"@);
    lemma_find_attribute_entries(prim.attributes@, "NORMAL"@);
    lemma_find_attribute_entries(prim.attributes@, "TANGENT"@);

    // positions and indices
    law_vec3_roundtrip(m.positions);
    let w = spec_wind(sub);
    if narrow {
        lemma_wind_values(sub, 0xFFFF);
        law_u16_indices_roundtrip(w);
    } else {
        law_u32_indices_roundtrip(w);
    }
    assert(spec_decode_indices(index_bytes(sub, narrow), crate::readback::index_component_type(narrow))
        == Ok::<Seq<u32>, ConvertError>(w));
    law_wind_involution(sub);
    assert(spec_resolve_primitive(prim, accessors, views, bufs)
        == Ok::<(Seq<[u32; 3]>, Seq<u32>), ConvertError>((m.positions, sub.take((sub.len() / 3 * 3) as int))));

    // normals and tangents
    if m.normals.len() > 0 {
        law_vec3_roundtrip(m.normals);
    }
    assert(spec_prim_normals(prim, accessors, views, bufs) == (if m.normals.len() > 0 { Some(m.normals) } else { None }));
    assert(spec_prim_tangents(prim, accessors, views, bufs) is None);

    // texture coordinates
    assert forall|k: nat| k < m.uvs.len() implies #[trigger] spec_prim_uvs(prim, k, accessors, views, bufs) == Some(m.uvs[k as int]) by {
        lemma_find_attribute_entries(prim.attributes@, texcoord_name(k));
        assert(crate::readback::find_entry(crate::assemble::expected_attributes(ids), texcoord_name(k)) == Some(ids.uvs[k as int]));
        law_vec2_roundtrip(m.uvs[k as int]);
        lemma_uv_reads_back(ms, i, bin, k as int);
        assert(crate::readback::reads_back(big, bin, ids.uvs[k as int], AccessorComponentType::Float, crate::schema::AccessorType::Vec2, vec2_bytes(m.uvs[k as int])));
    }
    assert forall|k: nat| k >= m.uvs.len() implies #[trigger] spec_prim_uvs(prim, k, accessors, views, bufs) is None by {
        lemma_find_attribute_entries(prim.attributes@, texcoord_name(k));
        assert(crate::readback::find_entry(crate::assemble::expected_attributes(ids), texcoord_name(k)) is None);
    }
}

/// Importing what the export wrote succeeds: every primitive of every exported
/// mesh resolves, so the conversion of the exported document and its buffer
/// does not fail.
pub proof fn law_export_imports(ctx: ExportContextView, bin_uri: Option<Seq<char>>, g: Gltf, bin: Vec<u8>)
    requires
        spec_built(ctx, bin_uri, g, bin@),
        bin@.len() <= u32::MAX,
        entries(g.buffer_views).len() <= u32::MAX,
        forall|i: int, j: int, t: int|
            0 <= i < ctx.meshes.len() && ctx.meshes[i].positions.len() <= MAX_U16_INDEXED_VERTICES
                && 0 <= j < ctx.meshes[i].submeshes.len() && 0 <= t < ctx.meshes[i].submeshes[j].len()
                ==> #[trigger] ctx.meshes[i].submeshes[j][t] <= 0xFFFF,
    ensures
        doc_resolves(g, seq![bin]),
{
    assert forall|i: int| 0 <= i < entries(g.meshes).len() implies #[trigger] mesh_resolves(
        entries(g.meshes)[i], entries(g.accessors), entries(g.buffer_views), seq![bin]) by {
        let mesh = entries(g.meshes)[i];
        assert(mesh_matches(mesh, ctx.meshes[i], mesh_ids_at(ctx.meshes, i)));
        assert forall|j: int| 0 <= j < mesh.primitives@.len() implies (#[trigger] spec_primitive_data(
            mesh.primitives@[j], entries(g.accessors), entries(g.buffer_views), seq![bin])) is Ok by {
            law_export_import_roundtrip(ctx, bin_uri, g, bin, i, j);
        }
    }
}

/// No primitive of an exported document names an attribute twice.
pub proof fn law_export_attributes_distinct(ctx: ExportContextView, bin_uri: Option<Seq<char>>, g: Gltf, bin: Seq<u8>)
    requires
        spec_built(ctx, bin_uri, g, bin),
    ensures
        attributes_distinct(g),
{
    assert forall|m: int, p: int| 0 <= m < entries(g.meshes).len() && 0 <= p < entries(g.meshes)[m].primitives@.len()
        implies distinct_semantics((#[trigger] entries(g.meshes)[m].primitives@[p]).attributes@) by {
        let ids = mesh_ids_at(ctx.meshes, m);
        let prim = entries(g.meshes)[m].primitives@[p];
        assert(mesh_matches(entries(g.meshes)[m], ctx.meshes[m], ids));
        let e = crate::assemble::attribute_entries(prim.attributes@);
        assert(e == crate::assemble::expected_attributes(ids));
        crate::readback::lemma_expected_names_distinct(ids);
        assert forall|i: int, j: int| 0 <= i < j < prim.attributes@.len()
            implies (#[trigger] prim.attributes@[i]).semantic@ != (#[trigger] prim.attributes@[j]).semantic@ by {
            assert(e[i].0 == prim.attributes@[i].semantic@ && e[j].0 == prim.attributes@[j].semantic@);
        }
    }
}

/// A mesh exported with one sub-mesh imports as itself: the same vertices, its
/// normals when it has one per vertex, no tangents, and one sub-mesh holding
/// its complete triangles (as `u32` above 65535 vertices, else as `u16`)
/// without a material.
pub proof fn law_single_submesh_mesh_roundtrip(ctx: ExportContextView, bin_uri: Option<Seq<char>>, g: Gltf, bin: Vec<u8>, i: int)
    requires
        spec_built(ctx, bin_uri, g, bin@),
        0 <= i < ctx.meshes.len(),
        ctx.meshes[i].submeshes.len() == 1,
        bin@.len() <= u32::MAX,
        entries(g.buffer_views).len() <= u32::MAX,
        ctx.meshes[i].positions.len() <= MAX_U16_INDEXED_VERTICES ==> forall|t: int|
            0 <= t < ctx.meshes[i].submeshes[0].len() ==> ctx.meshes[i].submeshes[0][t] <= 0xFFFF,
    ensures
        ({
            let m = ctx.meshes[i];
            let sub = m.submeshes[0].take((m.submeshes[0].len() / 3 * 3) as int);
            let u = spec_unity_mesh(g, seq![bin], i as nat);
            &&& u.vertices == m.positions
            &&& m.normals.len() == m.positions.len() && m.normals.len() > 0 ==> u.normals == m.normals
            &&& u.tangents.len() == 0
            &&& u.sub_meshes.len() == 1
            &&& u.sub_meshes[0].material_index is None
            &&& u.sub_meshes[0].indices == if m.positions.len() > MAX_U16_VERTICES {
                IndicesView::U32(sub)
            } else {
                IndicesView::U16(sub.map_values(|x: u32| x as u16))
            }
        }),
{
    let m = ctx.meshes[i];
    let mesh = entries(g.meshes)[i];
    let accs = entries(g.accessors);
    let views = entries(g.buffer_views);
    let sub = m.submeshes[0].take((m.submeshes[0].len() / 3 * 3) as int);
    law_export_import_roundtrip(ctx, bin_uri, g, bin, i, 0);
    assert(mesh_matches(mesh, m, mesh_ids_at(ctx.meshes, i)));
    let x = PrimitiveDataView {
        positions: m.positions,
        normals: if m.normals.len() > 0 { Some(m.normals) } else { None },
        tangents: None,
        wound: sub,
    };
    let d = mesh_data(mesh, accs, views, seq![bin]);
    assert(d =~= seq![x]);
    assert(d.drop_last() =~= Seq::<PrimitiveDataView>::empty());
    assert(concat_positions(d) == m.positions);
    assert(concat_normals(d.drop_last()) == Seq::<[u32; 3]>::empty());
    assert(concat_normals(d) =~= (if m.normals.len() > 0 { m.normals } else { Seq::<[u32; 3]>::empty() }));
    assert(d.take(0) =~= Seq::<PrimitiveDataView>::empty());
    assert(vertex_base(d, 0) == 0);
    let u = spec_unity_mesh(g, seq![bin], i as nat);
    assert(u.sub_meshes[0] == spec_sub_mesh(mesh.primitives@, d, 0));
    assert forall|t: int| 0 <= t < sub.len() implies #[trigger] sub[t].wrapping_add(0u32) == sub[t] by {}
    if m.positions.len() > MAX_U16_VERTICES {
        assert(sub.map_values(|x: u32| x.wrapping_add(0u32)) =~= sub);
    } else {
        assert(sub.map_values(|x: u32| x.wrapping_add(0u32) as u16) =~= sub.map_values(|x: u32| x as u16));
    }
    assert(!has_all_tangents(d));
}

// ---- transforms ----------------------------------------------------------------------

/// Two floats are the same value: the same bits, or both zeros (`+0.0` and `-0.0`).
pub open spec fn same_float(a: u32, b: u32) -> bool {
    a == b || (spec_is_zero(a) && spec_is_zero(b))
}

/// Two vectors are the same componentwise.
pub open spec fn same_vec3(a: [u32; 3], b: [u32; 3]) -> bool {
    same_float(a[0], b[0]) && same_float(a[1], b[1]) && same_float(a[2], b[2])
}

/// Two quaternions are the same componentwise.
pub open spec fn same_quat(a: [u32; 4], b: [u32; 4]) -> bool {
    same_float(a[0], b[0]) && same_float(a[1], b[1]) && same_float(a[2], b[2]) && same_float(a[3], b[3])
}

/// The negated quaternion: the same rotation.
pub open spec fn quat_neg(q: [u32; 4]) -> [u32; 4] {
    [spec_neg(q[0]), spec_neg(q[1]), spec_neg(q[2]), spec_neg(q[3])]
}

/// A negated float is a zero exactly when the float is.
pub proof fn lemma_neg_zero(x: u32)
    ensures
        spec_is_zero(spec_neg(x)) == spec_is_zero(x),
        spec_is_negative(spec_neg(x)) ==> !spec_is_zero(x),
{
    assert(((x ^ 0x8000_0000u32) == 0u32 || (x ^ 0x8000_0000u32) == 0x8000_0000u32) == (x == 0u32 || x == 0x8000_0000u32)) by (bit_vector);
}

/// Canonical zeros keep the value.
pub proof fn lemma_canon_same(x: u32)
    ensures
        same_float(canon(x), x),
        spec_is_zero(canon(x)) == spec_is_zero(x),
{
}

/// Negation keeps values apart and together.
pub proof fn lemma_neg_same(a: u32, b: u32)
    requires
        same_float(a, b),
    ensures
        same_float(spec_neg(a), spec_neg(b)),
{
    lemma_neg_zero(a);
    lemma_neg_zero(b);
}

/// `-canon(-x)` is `x`.
pub proof fn lemma_flip_back(x: u32)
    ensures
        same_float(spec_neg(canon(spec_neg(x))), x),
{
    lemma_neg_zero(x);
    lemma_canon_same(spec_neg(x));
    lemma_neg_same(canon(spec_neg(x)), spec_neg(x));
    lemma_neg_neg(x);
}

/// Importing an exported node gives its transform back: the same position and
/// scale, and the same rotation or its negation (which is the same rotation).
/// An omitted component imports as the identity's.
pub proof fn law_transform_roundtrip(nodes: Seq<NodeDataView>, out: Node, idx: int)
    requires
        0 <= idx < nodes.len(),
        node_matches(out, nodes, idx),
    ensures
        ({
            let t = spec_node_transform(out);
            let n = nodes[idx];
            &&& same_vec3(t.position, match n.translation { Some(v) => v, None => spec_identity().position })
            &&& match n.rotation {
                Some(q) => same_quat(t.rotation, q) || same_quat(t.rotation, quat_neg(q)),
                None => t.rotation == spec_identity().rotation,
            }
            &&& t.scale == match n.scale { Some(s) => s, None => spec_identity().scale }
        }),
{
    let n = nodes[idx];
    let t = spec_node_transform(out);
    match n.translation {
        None => {},
        Some(v) => {
            lemma_flip_back(v[0]);
            lemma_canon_same(spec_neg(v[0]));
            lemma_neg_zero(v[0]);
            lemma_canon_same(v[1]);
            lemma_canon_same(v[2]);
        },
    }
    match n.rotation {
        None => {},
        Some(q) => {
            let c = [canon(spec_neg(q[0])), canon(q[1]), canon(q[2]), canon(spec_neg(q[3]))];
            let r = canon_quat(c);
            lemma_flip_back(q[0]);
            lemma_flip_back(q[3]);
            lemma_canon_same(spec_neg(q[0]));
            lemma_canon_same(spec_neg(q[3]));
            lemma_neg_zero(q[0]);
            lemma_neg_zero(q[3]);
            lemma_canon_same(q[1]);
            lemma_canon_same(q[2]);
            lemma_neg_same(canon(q[1]), q[1]);
            lemma_neg_same(canon(q[2]), q[2]);
            lemma_neg_neg(c[0]);
            lemma_neg_neg(c[3]);
            lemma_neg_zero(c[0]);
            lemma_neg_zero(c[1]);
            lemma_neg_zero(c[2]);
            lemma_neg_zero(c[3]);
            lemma_neg_zero(spec_neg(q[3]));
            if spec_is_negative(c[3]) {
                assert(r == [spec_neg(c[0]), spec_neg(c[1]), spec_neg(c[2]), spec_neg(c[3])]);
                if out.rotation is None {
                    lemma_neg_neg(F32_ONE);
                    assert(same_quat(t.rotation, q));
                } else {
                    assert(same_quat(t.rotation, quat_neg(q)));
                }
            } else {
                assert(r == c);
                if out.rotation is None {
                    assert(same_quat(t.rotation, quat_neg(q)));
                } else {
                    assert(same_quat(t.rotation, q));
                }
            }
        },
    }
}

/// A node exported from the context imports as its GameObject: its name (or
/// its index when unnamed), the nodes whose parent it is as children, its mesh,
/// and its transform as [`law_transform_roundtrip`] states; the scene's roots
/// are the nodes without a parent.
pub proof fn law_node_roundtrip(ctx: ExportContextView, bin_uri: Option<Seq<char>>, g: Gltf, bin: Seq<u8>, k: int)
    requires
        spec_built(ctx, bin_uri, g, bin),
        0 <= k < ctx.nodes.len(),
    ensures
        ({
            let n = ctx.nodes[k];
            let go = spec_game_object(entries(g.nodes)[k], k as nat);
            &&& go.name == match n.name { Some(s) => s, None => decimal(k as nat) }
            &&& go.children == children_of(ctx.nodes, k, ctx.nodes.len())
            &&& go.mesh_indices == match n.mesh_index { Some(m) => seq![m], None => Seq::<u32>::empty() }
            &&& go.transform == spec_node_transform(entries(g.nodes)[k])
        }),
        spec_root_nodes(g) == roots_of(ctx.nodes, ctx.nodes.len()),
{
    let out = entries(g.nodes)[k];
    assert(node_matches(out, ctx.nodes, k));
    let sc = entries(g.scenes)[0];
    assert(default_scene(g) == Some(sc));
}

} // verus!
