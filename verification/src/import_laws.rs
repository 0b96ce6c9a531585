//! What an import promises, stated over the document it reads: which scene
//! it opens, how node transforms come across, how texture slots reach images,
//! and which texture-coordinate sets a mesh keeps.
use vstd::prelude::*;
use crate::bits::{spec_neg, F32_ONE, F32_ZERO};
use crate::mesh::mesh_data;
use crate::primitive::{PrimitiveDataView, spec_prim_uvs};
use crate::unity_core::IndicesView;
use crate::schema::{Accessor, AccessorComponentType, AccessorType, BufferView, Gltf, MaterialAlphaMode, MeshPrimitive, MeshPrimitiveMode, entries};
use crate::decode::{u16_at, u32_at};
use crate::primitive::{find_attribute, spec_decode_indices, spec_primitive_data};
use crate::resolve::spec_resolve_accessor;
use crate::text::decimal;
use crate::unity_gltf::{UnityGltfView, spec_unity_gltf};

verus! {

// ---- the default scene -----------------------------------------------------------

/// The import opens the scene that the document names in `scene`, or scene 0
/// when it names none: its name (the file stem when it has none) and its
/// root nodes. Without such a scene the name is the file stem and there are
/// no roots.
pub proof fn law_default_scene(gltf: Gltf, buffers: Seq<Vec<u8>>, stem: Seq<char>, u: UnityGltfView)
    requires
        u == spec_unity_gltf(gltf, buffers, stem),
    ensures
        ({
            let scenes = entries(gltf.scenes);
            let s: int = match gltf.scene { Some(i) => i as int, None => 0 };
            if s < scenes.len() {
                &&& u.scene_name == match scenes[s].name { Some(n) => n@, None => stem }
                &&& u.root_game_objects == entries(scenes[s].nodes)
            } else {
                &&& u.scene_name == stem
                &&& u.root_game_objects == Seq::<u32>::empty()
            }
        }),
{
}

// ---- node transforms ---------------------------------------------------------------

/// The GameObject of node `k` carries the node's local transform mirrored
/// into Unity's left-handed system: X of the position negated, X and W of the
/// rotation negated, the scale unchanged. A node given by a matrix uses the
/// matrix's decomposition; otherwise each of translation, rotation and scale
/// that the node lacks is the identity's.
pub proof fn law_node_transform(gltf: Gltf, buffers: Seq<Vec<u8>>, stem: Seq<char>, u: UnityGltfView, k: u32)
    requires
        u == spec_unity_gltf(gltf, buffers, stem),
        (k as int) < entries(gltf.nodes).len(),
    ensures
        u.game_objects.dom().contains(k),
        ({
            let node = entries(gltf.nodes)[k as int];
            let t = u.game_objects[k].transform;
            match node.matrix_trs {
                Some(trs) => {
                    &&& t.position == [spec_neg(trs.translation[0]), trs.translation[1], trs.translation[2]]
                    &&& t.rotation == [spec_neg(trs.rotation[0]), trs.rotation[1], trs.rotation[2], spec_neg(trs.rotation[3])]
                    &&& t.scale == trs.scale
                },
                None => {
                    &&& t.position == match node.translation {
                        Some(p) => [spec_neg(p[0]), p[1], p[2]],
                        None => [F32_ZERO, F32_ZERO, F32_ZERO],
                    }
                    &&& t.rotation == match node.rotation {
                        Some(r) => [spec_neg(r[0]), r[1], r[2], spec_neg(r[3])],
                        None => [F32_ZERO, F32_ZERO, F32_ZERO, F32_ONE],
                    }
                    &&& t.scale == match node.scale { Some(s) => s, None => [F32_ONE, F32_ONE, F32_ONE] }
                },
            }
        }),
{
}

/// What the plugin reports as the transform of the GameObject of node `k`:
/// position, rotation `[x, y, z, w]` and scale, ten numbers in that order,
/// mirrored as [`law_node_transform`] states (here for a node given by
/// translation, rotation and scale, each present).
pub proof fn law_transform_report(gltf: Gltf, buffers: Seq<Vec<u8>>, stem: Seq<char>, u: UnityGltfView, k: u32)
    requires
        u == spec_unity_gltf(gltf, buffers, stem),
        (k as int) < entries(gltf.nodes).len(),
        entries(gltf.nodes)[k as int].matrix_trs is None,
        entries(gltf.nodes)[k as int].translation is Some,
        entries(gltf.nodes)[k as int].rotation is Some,
        entries(gltf.nodes)[k as int].scale is Some,
    ensures
        u.game_objects.contains_key(k),
        ({
            let node = entries(gltf.nodes)[k as int];
            let t = node.translation->0;
            let q = node.rotation->0;
            let sc = node.scale->0;
            crate::query::spec_transform_layout(u.game_objects[k].transform)
                == [spec_neg(t[0]), t[1], t[2], spec_neg(q[0]), q[1], q[2], spec_neg(q[3]), sc[0], sc[1], sc[2]]
        }),
{
    law_node_transform(gltf, buffers, stem, u, k);
}

// ---- materials -------------------------------------------------------------------

/// The image that texture slot `index` shows: the source of texture `index`
/// of `gltf`, when that texture exists.
pub open spec fn slot_image(gltf: Gltf, index: u32) -> Option<u32> {
    if (index as int) < entries(gltf.textures).len() { entries(gltf.textures)[index as int].source } else { None }
}

/// Every texture slot of every imported material holds an image index: the
/// source of the texture that the glTF slot names, not the texture index
/// itself; a slot that is absent, or names a texture that does not exist,
/// stays empty.
pub proof fn law_material_slots_hold_images(gltf: Gltf, buffers: Seq<Vec<u8>>, stem: Seq<char>, u: UnityGltfView, k: u32)
    requires
        u == spec_unity_gltf(gltf, buffers, stem),
        (k as int) < entries(gltf.materials).len(),
    ensures
        u.pbr_metallic_roughness.dom().contains(k),
        ({
            let mat = entries(gltf.materials)[k as int];
            let out = u.pbr_metallic_roughness[k];
            &&& out.emissive_texture == match mat.emissive_texture { Some(t) => slot_image(gltf, t.index), None => None }
            &&& out.normal_texture == match mat.normal_texture { Some(t) => slot_image(gltf, t.index), None => None }
            &&& out.occlusion_texture == match mat.occlusion_texture { Some(t) => slot_image(gltf, t.index), None => None }
            &&& out.base_color_texture == match mat.pbr_metallic_roughness {
                Some(p) => match p.base_color_texture { Some(t) => slot_image(gltf, t.index), None => None },
                None => None,
            }
            &&& out.metallic_roughness_texture == match mat.pbr_metallic_roughness {
                Some(p) => match p.metallic_roughness_texture { Some(t) => slot_image(gltf, t.index), None => None },
                None => None,
            }
        }),
{
}

/// The factors of an imported material are the glTF ones, or the glTF
/// defaults (white base colour, metallic and roughness 1, normal scale and
/// occlusion strength 1) where the material leaves them out; the alpha mode
/// becomes 0 (opaque), 1 (mask) or 2 (blend); the name is the material's own,
/// or its index.
pub proof fn law_material_factors(gltf: Gltf, buffers: Seq<Vec<u8>>, stem: Seq<char>, u: UnityGltfView, k: u32)
    requires
        u == spec_unity_gltf(gltf, buffers, stem),
        (k as int) < entries(gltf.materials).len(),
    ensures
        u.pbr_metallic_roughness.dom().contains(k),
        ({
            let mat = entries(gltf.materials)[k as int];
            let out = u.pbr_metallic_roughness[k];
            &&& out.name == match mat.name { Some(n) => n@, None => decimal(k as nat) }
            &&& out.base_color_factor == match mat.pbr_metallic_roughness {
                Some(p) => p.base_color_factor,
                None => [F32_ONE, F32_ONE, F32_ONE, F32_ONE],
            }
            &&& out.metallic_factor == match mat.pbr_metallic_roughness { Some(p) => p.metallic_factor, None => F32_ONE }
            &&& out.roughness_factor == match mat.pbr_metallic_roughness { Some(p) => p.roughness_factor, None => F32_ONE }
            &&& out.normal_scale == match mat.normal_texture { Some(t) => t.scale, None => F32_ONE }
            &&& out.occlusion_strength == match mat.occlusion_texture { Some(t) => t.strength, None => F32_ONE }
            &&& out.emissive_factor == mat.emissive_factor
            &&& out.alpha_cutoff == mat.alpha_cutoff
            &&& out.double_sided == mat.double_sided
            &&& out.alpha_mode == match mat.alpha_mode {
                MaterialAlphaMode::Opaque => 0u32,
                MaterialAlphaMode::Mask => 1u32,
                MaterialAlphaMode::Blend => 2u32,
            }
        }),
{
}

// ---- images --------------------------------------------------------------------

/// An imported image keeps its name (or takes its index), its URI, and, when
/// it lives in a buffer view, exactly the view's bytes: `byte_length` bytes
/// of the view's buffer from `byte_offset` on. The bytes are absent when the
/// image names no view, or the view, its buffer or that range does not exist.
pub proof fn law_image_bytes(gltf: Gltf, buffers: Seq<Vec<u8>>, stem: Seq<char>, u: UnityGltfView, k: u32)
    requires
        u == spec_unity_gltf(gltf, buffers, stem),
        (k as int) < entries(gltf.images).len(),
    ensures
        u.images.dom().contains(k),
        ({
            let img = entries(gltf.images)[k as int];
            let out = u.images[k];
            let views = entries(gltf.buffer_views);
            &&& out.name == match img.name { Some(n) => n@, None => decimal(k as nat) }
            &&& out.uri == match img.uri { Some(s) => Some(s@), None => None }
            &&& match img.buffer_view {
                None => out.bytes is None,
                Some(bvi) => {
                    let fits = (bvi as int) < views.len()
                        && (views[bvi as int].buffer as int) < buffers.len()
                        && views[bvi as int].byte_offset + views[bvi as int].byte_length
                            <= buffers[views[bvi as int].buffer as int]@.len();
                    &&& out.bytes is Some <==> fits
                    &&& fits ==> out.bytes->0.len() == views[bvi as int].byte_length
                        && forall|i: int| 0 <= i < views[bvi as int].byte_length ==> #[trigger] out.bytes->0[i]
                            == buffers[views[bvi as int].buffer as int]@[views[bvi as int].byte_offset + i]
                },
            }
        }),
{
}

// ---- game objects ----------------------------------------------------------------

/// The GameObject of node `k` is named after the node (or its index), has the
/// node's children in order, and carries the node's mesh, if any.
pub proof fn law_game_object(gltf: Gltf, buffers: Seq<Vec<u8>>, stem: Seq<char>, u: UnityGltfView, k: u32)
    requires
        u == spec_unity_gltf(gltf, buffers, stem),
        (k as int) < entries(gltf.nodes).len(),
    ensures
        u.game_objects.dom().contains(k),
        ({
            let node = entries(gltf.nodes)[k as int];
            let g = u.game_objects[k];
            &&& g.name == match node.name { Some(n) => n@, None => decimal(k as nat) }
            &&& g.children == match node.children { Some(c) => c@, None => Seq::<u32>::empty() }
            &&& g.mesh_indices == match node.mesh { Some(m) => seq![m], None => Seq::<u32>::empty() }
        }),
{
}

// ---- one primitive -------------------------------------------------------------

/// Index `i` of index bytes `b` of component type `ct`: one byte, or a
/// little-endian `u16` or `u32`.
pub open spec fn index_value(b: Seq<u8>, ct: AccessorComponentType, i: int) -> u32 {
    match ct {
        AccessorComponentType::UnsignedByte => b[i] as u32,
        AccessorComponentType::UnsignedShort => u16_at(b, 2 * i) as u32,
        _ => u32_at(b, 4 * i),
    }
}

/// The number of indices held by `b` for component type `ct`.
pub open spec fn index_count(b: Seq<u8>, ct: AccessorComponentType) -> int {
    match ct {
        AccessorComponentType::UnsignedByte => b.len() as int,
        AccessorComponentType::UnsignedShort => (b.len() / 2) as int,
        _ => (b.len() / 4) as int,
    }
}

/// The bytes of attribute `name` of `prim` when it names an accessor that
/// exists, has type `ty` with float components, and resolves.
pub open spec fn float_attribute_bytes(
    prim: MeshPrimitive,
    name: Seq<char>,
    ty: AccessorType,
    accessors: Seq<Accessor>,
    buffer_views: Seq<BufferView>,
    buffers: Seq<Vec<u8>>,
) -> Option<Seq<u8>> {
    match find_attribute(prim.attributes@, name) {
        Some(id) => if (id as int) < accessors.len() && accessors[id as int].accessor_type == ty
            && accessors[id as int].component_type == AccessorComponentType::Float {
            match spec_resolve_accessor(accessors[id as int], buffer_views, buffers) {
                Ok(b) => Some(b),
                Err(_) => None,
            }
        } else {
            None
        },
        None => None,
    }
}

/// A resolved primitive has normals exactly when its `NORMAL` attribute is a
/// usable `VEC3` float accessor, each the three floats at byte `12 i` with X
/// negated; and tangents exactly when its `TANGENT` attribute is a usable
/// `VEC4` float accessor, each the four floats at byte `16 i` with X and W
/// negated.
pub proof fn law_primitive_normals_tangents(prim: MeshPrimitive, accessors: Seq<Accessor>, buffer_views: Seq<BufferView>, buffers: Seq<Vec<u8>>)
    ensures
        match spec_primitive_data(prim, accessors, buffer_views, buffers) {
            Ok(d) => {
                &&& match float_attribute_bytes(prim, "NORMAL"@, AccessorType::Vec3, accessors, buffer_views, buffers) {
                    None => d.normals is None,
                    Some(nb) => d.normals == Some(Seq::new(nb.len() / 12, |i: int|
                        [spec_neg(u32_at(nb, 12 * i)), u32_at(nb, 12 * i + 4), u32_at(nb, 12 * i + 8)])),
                }
                &&& match float_attribute_bytes(prim, "TANGENT"@, AccessorType::Vec4, accessors, buffer_views, buffers) {
                    None => d.tangents is None,
                    Some(tb) => d.tangents == Some(Seq::new(tb.len() / 16, |i: int|
                        [spec_neg(u32_at(tb, 16 * i)), u32_at(tb, 16 * i + 4), u32_at(tb, 16 * i + 8), spec_neg(u32_at(tb, 16 * i + 12))])),
                }
            },
            Err(_) => true,
        },
{
}

/// Triangle `t` of an index list.
pub open spec fn triangle(w: Seq<u32>, t: int) -> [u32; 3] {
    [w[3 * t], w[3 * t + 1], w[3 * t + 2]]
}

/// A primitive that resolves is a triangle list whose `POSITION` accessor is
/// `VEC3`/`FLOAT`; its vertex `i` is the three floats at byte `12 i` of that
/// accessor's bytes with X negated; its index list keeps every complete
/// triangle `(a, b, c)` of the decoded indices, in order, as `(a, c, b)`
/// (the winding reversed), and drops a trailing partial one.
pub proof fn law_primitive_decode(prim: MeshPrimitive, accessors: Seq<Accessor>, buffer_views: Seq<BufferView>, buffers: Seq<Vec<u8>>)
    ensures
        match spec_primitive_data(prim, accessors, buffer_views, buffers) {
            Ok(d) => {
                let pid = find_attribute(prim.attributes@, "POSITION"@)->0;
                let pacc = accessors[pid as int];
                let iacc = accessors[prim.indices->0 as int];
                match (spec_resolve_accessor(pacc, buffer_views, buffers), spec_resolve_accessor(iacc, buffer_views, buffers)) {
                    (Ok(pb), Ok(ib)) => {
                        let n = index_count(ib, iacc.component_type);
                        &&& prim.mode == MeshPrimitiveMode::Triangles
                        &&& pacc.accessor_type == AccessorType::Vec3
                        &&& pacc.component_type == AccessorComponentType::Float
                        &&& d.positions.len() == pacc.count
                        &&& forall|i: int| 0 <= i < pacc.count ==> #[trigger] d.positions[i]
                            == [spec_neg(u32_at(pb, 12 * i)), u32_at(pb, 12 * i + 4), u32_at(pb, 12 * i + 8)]
                        &&& d.wound.len() == n / 3 * 3
                        &&& forall|t: int| 0 <= t < n / 3 ==> #[trigger] triangle(d.wound, t)
                            == [index_value(ib, iacc.component_type, 3 * t),
                                index_value(ib, iacc.component_type, 3 * t + 2),
                                index_value(ib, iacc.component_type, 3 * t + 1)]
                    },
                    _ => false,
                }
            },
            Err(_) => true,
        },
{
    match spec_primitive_data(prim, accessors, buffer_views, buffers) {
        Ok(d) => {
            let pid = find_attribute(prim.attributes@, "POSITION"@)->0;
            let pacc = accessors[pid as int];
            let iacc = accessors[prim.indices->0 as int];
            let pb = spec_resolve_accessor(pacc, buffer_views, buffers)->Ok_0;
            let ib = spec_resolve_accessor(iacc, buffer_views, buffers)->Ok_0;
            let ct = iacc.component_type;
            let raw = spec_decode_indices(ib, ct)->Ok_0;
            let n = index_count(ib, ct);
            assert(raw.len() == n);
            assert(forall|i: int| 0 <= i < n ==> #[trigger] raw[i] == index_value(ib, ct, i));
            assert(crate::resolve::element_size(pacc) == 12);
            assert(pb.len() == pacc.count * 12) by {
                let bv = buffer_views[pacc.buffer_view->0 as int];
                assert(crate::resolve::accessor_end(pacc, bv) - crate::resolve::accessor_start(pacc, bv) == pacc.count * 12);
            }
            assert(pb.len() / 12 == pacc.count as int) by (nonlinear_arith)
                requires pb.len() == pacc.count * 12;
            assert forall|t: int| 0 <= t < n / 3 implies #[trigger] triangle(d.wound, t)
                == [index_value(ib, ct, 3 * t), index_value(ib, ct, 3 * t + 2), index_value(ib, ct, 3 * t + 1)] by {
                assert((3 * t) / 3 == t && (3 * t) % 3 == 0);
                assert((3 * t + 1) / 3 == t && (3 * t + 1) % 3 == 1);
                assert((3 * t + 2) / 3 == t && (3 * t + 2) % 3 == 2);
                assert(3 * t + 2 < n / 3 * 3);
            }
        },
        Err(_) => {},
    }
}

// ---- merged meshes ---------------------------------------------------------------

/// Each primitive's resolved vertex positions, in order.
pub open spec fn position_parts(d: Seq<PrimitiveDataView>) -> Seq<Seq<[u32; 3]>> {
    Seq::new(d.len(), |p: int| d[p].positions)
}

/// Every primitive has one normal per vertex.
pub open spec fn normals_everywhere(d: Seq<PrimitiveDataView>) -> bool {
    forall|p: int| 0 <= p < d.len() ==> (#[trigger] d[p]).normals is Some && d[p].normals->0.len() == d[p].positions.len()
}

/// Every primitive has one tangent per vertex.
pub open spec fn tangents_everywhere(d: Seq<PrimitiveDataView>) -> bool {
    forall|p: int| 0 <= p < d.len() ==> (#[trigger] d[p]).tangents is Some && d[p].tangents->0.len() == d[p].positions.len()
}

/// An imported mesh merges its primitives: the vertices are each primitive's
/// positions one after the other; normals (tangents) are kept, joined the
/// same way, only when every primitive has one per vertex, and are empty
/// otherwise; there is one sub-mesh per primitive, with the primitive's
/// material, whose indices are the primitive's wound indices shifted by the
/// number of vertices of the primitives before it, stored as `u32` when the
/// mesh has more than 65535 vertices and as `u16` otherwise.
pub proof fn law_mesh_merge(gltf: Gltf, buffers: Seq<Vec<u8>>, stem: Seq<char>, u: UnityGltfView, m: u32)
    requires
        u == spec_unity_gltf(gltf, buffers, stem),
        (m as int) < entries(gltf.meshes).len(),
    ensures
        u.meshes.dom().contains(m),
        ({
            let mesh = entries(gltf.meshes)[m as int];
            let prims = mesh.primitives@;
            let d = mesh_data(mesh, entries(gltf.accessors), entries(gltf.buffer_views), buffers);
            let out = u.meshes[m];
            &&& out.name == match mesh.name { Some(n) => n@, None => decimal(m as nat) }
            &&& out.vertices == position_parts(d).flatten()
            &&& out.normals == if normals_everywhere(d) {
                Seq::new(d.len(), |p: int| d[p].normals->0).flatten()
            } else {
                Seq::empty()
            }
            &&& out.tangents == if tangents_everywhere(d) {
                Seq::new(d.len(), |p: int| d[p].tangents->0).flatten()
            } else {
                Seq::empty()
            }
            &&& out.sub_meshes.len() == prims.len()
            &&& forall|p: int| 0 <= p < prims.len() ==> {
                let sm = #[trigger] out.sub_meshes[p];
                let base = position_parts(d).take(p).flatten().len();
                let w = d[p].wound;
                &&& sm.material_index == prims[p].material
                &&& if out.vertices.len() > 65535 {
                    sm.indices matches IndicesView::U32(v) && v.len() == w.len()
                        && forall|t: int| 0 <= t < w.len() ==> #[trigger] v[t] == w[t].wrapping_add(base as u32)
                } else {
                    sm.indices matches IndicesView::U16(v) && v.len() == w.len()
                        && forall|t: int| 0 <= t < w.len() ==> #[trigger] v[t] == w[t].wrapping_add(base as u32) as u16
                }
            }
        }),
{
    let mesh = entries(gltf.meshes)[m as int];
    let prims = mesh.primitives@;
    let d = mesh_data(mesh, entries(gltf.accessors), entries(gltf.buffer_views), buffers);
    let out = u.meshes[m];
    assert(out == crate::unity_gltf::spec_unity_mesh(gltf, buffers, m as nat));
    lemma_positions(d);
    lemma_normals(d);
    lemma_tangents(d);
    assert(normals_everywhere(d) == crate::mesh::has_all_normals(d)) by {
        if normals_everywhere(d) {
            assert forall|p: int| 0 <= p < d.len() implies crate::mesh::has_len((#[trigger] d[p]).normals, d[p].positions.len()) by {}
        }
        if crate::mesh::has_all_normals(d) {
            assert forall|p: int| 0 <= p < d.len() implies (#[trigger] d[p]).normals is Some && d[p].normals->0.len() == d[p].positions.len() by {
                assert(crate::mesh::has_len(d[p].normals, d[p].positions.len()));
            }
        }
    }
    assert(tangents_everywhere(d) == crate::mesh::has_all_tangents(d)) by {
        if tangents_everywhere(d) {
            assert forall|p: int| 0 <= p < d.len() implies crate::mesh::has_len((#[trigger] d[p]).tangents, d[p].positions.len()) by {}
        }
        if crate::mesh::has_all_tangents(d) {
            assert forall|p: int| 0 <= p < d.len() implies (#[trigger] d[p]).tangents is Some && d[p].tangents->0.len() == d[p].positions.len() by {
                assert(crate::mesh::has_len(d[p].tangents, d[p].positions.len()));
            }
        }
    }
    assert(Seq::new(d.len(), |p: int| d[p].normals->0) =~= Seq::new(d.len(), |p: int| match d[p].normals { Some(n) => n, None => Seq::empty() })
        || !normals_everywhere(d));
    assert(Seq::new(d.len(), |p: int| d[p].tangents->0) =~= Seq::new(d.len(), |p: int| match d[p].tangents { Some(n) => n, None => Seq::empty() })
        || !tangents_everywhere(d));
    assert forall|p: int| 0 <= p < prims.len() implies
        position_parts(d).take(p).flatten().len() == #[trigger] crate::mesh::vertex_base(d, p) by {
        lemma_positions(d.take(p));
        assert(position_parts(d.take(p)) =~= position_parts(d).take(p));
    }
}

/// The merged positions are the primitives' positions joined in order.
proof fn lemma_positions(d: Seq<PrimitiveDataView>)
    ensures
        crate::mesh::concat_positions(d) == position_parts(d).flatten(),
    decreases d.len(),
{
    if d.len() > 0 {
        lemma_positions(d.drop_last());
        lemma_flatten_last(position_parts(d));
        assert(position_parts(d).drop_last() =~= position_parts(d.drop_last()));
    } else {
        assert(position_parts(d) =~= Seq::<Seq<[u32; 3]>>::empty());
    }
}

/// The merged normals are the primitives' normals joined in order.
proof fn lemma_normals(d: Seq<PrimitiveDataView>)
    ensures
        crate::mesh::concat_normals(d)
            == Seq::new(d.len(), |p: int| match d[p].normals { Some(n) => n, None => Seq::empty() }).flatten(),
    decreases d.len(),
{
    let parts = Seq::new(d.len(), |p: int| match d[p].normals { Some(n) => n, None => Seq::<[u32; 3]>::empty() });
    if d.len() > 0 {
        lemma_normals(d.drop_last());
        lemma_flatten_last(parts);
        assert(parts.drop_last() =~= Seq::new(d.drop_last().len(), |p: int| match d.drop_last()[p].normals { Some(n) => n, None => Seq::empty() }));
    } else {
        assert(parts =~= Seq::<Seq<[u32; 3]>>::empty());
    }
}

/// The merged tangents are the primitives' tangents joined in order.
proof fn lemma_tangents(d: Seq<PrimitiveDataView>)
    ensures
        crate::mesh::concat_tangents(d)
            == Seq::new(d.len(), |p: int| match d[p].tangents { Some(n) => n, None => Seq::empty() }).flatten(),
    decreases d.len(),
{
    let parts = Seq::new(d.len(), |p: int| match d[p].tangents { Some(n) => n, None => Seq::<[u32; 4]>::empty() });
    if d.len() > 0 {
        lemma_tangents(d.drop_last());
        lemma_flatten_last(parts);
        assert(parts.drop_last() =~= Seq::new(d.drop_last().len(), |p: int| match d.drop_last()[p].tangents { Some(n) => n, None => Seq::empty() }));
    } else {
        assert(parts =~= Seq::<Seq<[u32; 4]>>::empty());
    }
}

/// Joining a non-empty sequence of parts is joining all but the last, then the last.
proof fn lemma_flatten_last<A>(s: Seq<Seq<A>>)
    requires
        s.len() > 0,
    ensures
        s.flatten() == s.drop_last().flatten() + s.last(),
{
    s.lemma_flatten_and_flatten_alt_are_equivalent();
    s.drop_last().lemma_flatten_and_flatten_alt_are_equivalent();
}

// ---- texture-coordinate sets ----------------------------------------------------------

/// `o` is present with `n` entries.
pub open spec fn present_with(o: Option<Seq<[u32; 2]>>, n: nat) -> bool {
    match o {
        Some(v) => v.len() == n,
        None => false,
    }
}

/// Every primitive of mesh `m` has set `j` (`TEXCOORD_j`) with one entry per
/// vertex of its resolved positions.
pub open spec fn set_on_every_primitive(gltf: Gltf, buffers: Seq<Vec<u8>>, m: int, j: nat) -> bool {
    let mesh = entries(gltf.meshes)[m];
    let d = mesh_data(mesh, entries(gltf.accessors), entries(gltf.buffer_views), buffers);
    forall|p: int| 0 <= p < mesh.primitives@.len() ==> present_with(#[trigger] spec_prim_uvs(
        mesh.primitives@[p], j, entries(gltf.accessors), entries(gltf.buffer_views), buffers), d[p].positions.len())
}

/// Set `j` of each primitive of mesh `m`, one after the other.
pub open spec fn joined_set(gltf: Gltf, buffers: Seq<Vec<u8>>, m: int, j: nat) -> Seq<[u32; 2]> {
    let prims = entries(gltf.meshes)[m].primitives@;
    Seq::new(prims.len(), |p: int| match spec_prim_uvs(prims[p], j, entries(gltf.accessors), entries(gltf.buffer_views), buffers) {
        Some(v) => v,
        None => Seq::empty(),
    }).flatten()
}

/// The texture-coordinate channels of an imported mesh are the sets
/// `TEXCOORD_0, TEXCOORD_1, …` that every primitive carries with one entry per
/// vertex, each channel the primitives' sets joined in order; the channels
/// stop at the first set that some primitive lacks (or at the first
/// primitive's attribute count, which no dense run of sets can pass).
pub proof fn law_uv_channels(gltf: Gltf, buffers: Seq<Vec<u8>>, stem: Seq<char>, u: UnityGltfView, m: u32)
    requires
        u == spec_unity_gltf(gltf, buffers, stem),
        (m as int) < entries(gltf.meshes).len(),
    ensures
        u.meshes.dom().contains(m),
        ({
            let prims = entries(gltf.meshes)[m as int].primitives@;
            let bound: nat = if prims.len() == 0 { 0 } else { prims[0].attributes@.len() };
            let uvs = u.meshes[m].uvs;
            &&& forall|j: int| 0 <= j < uvs.len() ==> j < bound
                && set_on_every_primitive(gltf, buffers, m as int, j as nat)
                && #[trigger] uvs[j] == joined_set(gltf, buffers, m as int, j as nat)
            &&& uvs.len() < bound ==> !set_on_every_primitive(gltf, buffers, m as int, uvs.len())
        }),
        forall|k: nat| (forall|j: nat| j <= k ==> #[trigger] set_on_every_primitive(gltf, buffers, m as int, j))
            && (entries(gltf.meshes)[m as int].primitives@.len() > 0)
            && k < entries(gltf.meshes)[m as int].primitives@[0].attributes@.len()
            ==> u.meshes[m].uvs.len() > k && u.meshes[m].uvs[k as int] == joined_set(gltf, buffers, m as int, k),
{
    let mesh = entries(gltf.meshes)[m as int];
    let prims = mesh.primitives@;
    let acc = entries(gltf.accessors);
    let bvs = entries(gltf.buffer_views);
    let d = mesh_data(mesh, acc, bvs, buffers);
    let uvs = u.meshes[m].uvs;
    let bound: nat = if prims.len() == 0 { 0 } else { prims[0].attributes@.len() };
    assert(u.meshes[m] == crate::unity_gltf::spec_unity_mesh(gltf, buffers, m as nat));
    lemma_count_from(gltf, buffers, m as int, 0);
    assert(uvs.len() == count_from(gltf, buffers, m as int, 0));
    assert(bound == set_bound(gltf, m as int));
    assert forall|j: int| 0 <= j < uvs.len() implies j < bound
        && set_on_every_primitive(gltf, buffers, m as int, j as nat)
        && #[trigger] uvs[j] == joined_set(gltf, buffers, m as int, j as nat) by {
        lemma_joined(gltf, buffers, m as int, j as nat, prims.len());
        assert(Seq::new(prims.len(), |p: int| match spec_prim_uvs(prims[p], j as nat, acc, bvs, buffers) {
            Some(v) => v,
            None => Seq::empty(),
        }).take(prims.len() as int) =~= Seq::new(prims.len(), |p: int| match spec_prim_uvs(prims[p], j as nat, acc, bvs, buffers) {
            Some(v) => v,
            None => Seq::empty(),
        }));
    }
    assert forall|k: nat| (forall|j: nat| j <= k ==> #[trigger] set_on_every_primitive(gltf, buffers, m as int, j))
        && (prims.len() > 0) && k < prims[0].attributes@.len()
        implies uvs.len() > k && uvs[k as int] == joined_set(gltf, buffers, m as int, k) by {
        if uvs.len() <= k {
            assert(set_on_every_primitive(gltf, buffers, m as int, uvs.len()));
        }
        assert(uvs[k as int] == joined_set(gltf, buffers, m as int, k));
    }
}

/// The most texture-coordinate sets that mesh `m` can keep: the first
/// primitive's attribute count.
pub open spec fn set_bound(gltf: Gltf, m: int) -> nat {
    let prims = entries(gltf.meshes)[m].primitives@;
    if prims.len() == 0 { 0 } else { prims[0].attributes@.len() }
}

/// The number of sets the import keeps for mesh `m` when counting from set `k`.
spec fn count_from(gltf: Gltf, buffers: Seq<Vec<u8>>, m: int, k: nat) -> nat {
    let mesh = entries(gltf.meshes)[m];
    let acc = entries(gltf.accessors);
    let bvs = entries(gltf.buffer_views);
    crate::mesh::uv_set_count_from(mesh.primitives@, mesh_data(mesh, acc, bvs, buffers), k, acc, bvs, buffers)
}

/// Counting from set `k`: every set counted is below the bound and on every
/// primitive, and counting stops below the bound only at a set some
/// primitive lacks.
proof fn lemma_count_from(gltf: Gltf, buffers: Seq<Vec<u8>>, m: int, k: nat)
    requires
        0 <= m < entries(gltf.meshes).len(),
    ensures
        count_from(gltf, buffers, m, k) >= k,
        count_from(gltf, buffers, m, k) == k || count_from(gltf, buffers, m, k) <= set_bound(gltf, m),
        forall|j: nat| k <= j < count_from(gltf, buffers, m, k) ==> #[trigger] set_on_every_primitive(gltf, buffers, m, j),
        count_from(gltf, buffers, m, k) < set_bound(gltf, m)
            ==> !set_on_every_primitive(gltf, buffers, m, count_from(gltf, buffers, m, k)),
    decreases set_bound(gltf, m) - k,
{
    let mesh = entries(gltf.meshes)[m];
    let prims = mesh.primitives@;
    let acc = entries(gltf.accessors);
    let bvs = entries(gltf.buffer_views);
    let d = mesh_data(mesh, acc, bvs, buffers);
    let bound = set_bound(gltf, m);
    assert(d.len() == prims.len());
    assert(crate::mesh::uv_set_usable(prims, d, k, acc, bvs, buffers) == set_on_every_primitive(gltf, buffers, m, k)) by {
        if crate::mesh::uv_set_usable(prims, d, k, acc, bvs, buffers) {
            assert forall|p: int| 0 <= p < prims.len() implies present_with(#[trigger] spec_prim_uvs(prims[p], k, acc, bvs, buffers),
                d[p].positions.len()) by {
                assert(crate::mesh::has_len(spec_prim_uvs(prims[p], k, acc, bvs, buffers), d[p].positions.len()));
            }
        } else {
            let p = choose|p: int| 0 <= p < prims.len() && !crate::mesh::has_len(
                #[trigger] spec_prim_uvs(prims[p], k, acc, bvs, buffers), d[p].positions.len());
            assert(!present_with(spec_prim_uvs(prims[p], k, acc, bvs, buffers), d[p].positions.len()));
        }
    }
    let n = count_from(gltf, buffers, m, k);
    if k < bound && crate::mesh::uv_set_usable(prims, d, k, acc, bvs, buffers) {
        assert(n == count_from(gltf, buffers, m, k + 1));
        lemma_count_from(gltf, buffers, m, k + 1);
        assert forall|j: nat| k <= j < count_from(gltf, buffers, m, k)
            implies #[trigger] set_on_every_primitive(gltf, buffers, m, j) by {
            if j > k {
                assert(k + 1 <= j < count_from(gltf, buffers, m, k + 1));
            }
        }
    } else {
        assert(n == k);
    }
}

/// Joining set `j` of the first `n` primitives gives what the mesh's channel
/// holds for those primitives.
proof fn lemma_joined(gltf: Gltf, buffers: Seq<Vec<u8>>, m: int, j: nat, n: nat)
    requires
        0 <= m < entries(gltf.meshes).len(),
        n <= entries(gltf.meshes)[m].primitives@.len(),
    ensures
        ({
            let prims = entries(gltf.meshes)[m].primitives@;
            let acc = entries(gltf.accessors);
            let bvs = entries(gltf.buffer_views);
            crate::mesh::concat_uvs(prims, j, n, acc, bvs, buffers) == Seq::new(prims.len(), |p: int| match spec_prim_uvs(prims[p], j, acc, bvs, buffers) {
                Some(v) => v,
                None => Seq::empty(),
            }).take(n as int).flatten()
        }),
    decreases n,
{
    let prims = entries(gltf.meshes)[m].primitives@;
    let acc = entries(gltf.accessors);
    let bvs = entries(gltf.buffer_views);
    let parts = Seq::new(prims.len(), |p: int| match spec_prim_uvs(prims[p], j, acc, bvs, buffers) {
        Some(v) => v,
        None => Seq::empty(),
    });
    parts.take(n as int).lemma_flatten_and_flatten_alt_are_equivalent();
    if n > 0 {
        lemma_joined(gltf, buffers, m, j, (n - 1) as nat);
        parts.take(n - 1).lemma_flatten_and_flatten_alt_are_equivalent();
        assert(parts.take(n as int).drop_last() =~= parts.take(n - 1));
        assert(parts.take(n as int).last() == parts[n - 1]);
    } else {
        assert(parts.take(0) =~= Seq::<Seq<[u32; 2]>>::empty());
    }
}

} // verus!
