//! Reading a converted document: the lookups behind the plugin's exported
//! functions. Each lookup answers for an index that may be out of range with
//! the fallback the plugin documents (`0`, `u32::MAX`, `-1`, a default factor).
use vstd::prelude::*;
use crate::bits::{F32_HALF, F32_ONE, F32_ZERO};
use crate::unity_core::{
    ALPHA_MODE_OPAQUE, IndicesView, UnityIndices, UnityTransform, spec_identity, identity,
};
use crate::unity_gltf::UnityGltf;

verus! {

broadcast use vstd::std_specs::hash::group_hash_axioms;

// ---- scene ----------------------------------------------------------------

/// The scene name (always present: unnamed scenes fall back to the file stem).
pub fn gltforge_scene_name(gltf: &UnityGltf) -> (r: &String)
    ensures
        r@ == gltf@.scene_name,
{
    &gltf.scene_name
}

/// The number of root GameObjects of the default scene.
pub fn gltforge_root_game_object_count(gltf: &UnityGltf) -> (r: u32)
    ensures
        r == gltf@.root_game_objects.len() as u32,
{
    gltf.root_game_objects.len() as u32
}

/// The index of the `slot`-th root GameObject, or `u32::MAX` when `slot` is out of range.
pub fn gltforge_root_game_object_index(gltf: &UnityGltf, slot: u32) -> (r: u32)
    ensures
        r == (if (slot as nat) < gltf@.root_game_objects.len() { gltf@.root_game_objects[slot as int] } else { u32::MAX }),
{
    if (slot as usize) < gltf.root_game_objects.len() { gltf.root_game_objects[slot as usize] } else { u32::MAX }
}

// ---- game objects -----------------------------------------------------------

/// The number of GameObjects.
pub fn gltforge_game_object_count(gltf: &UnityGltf) -> (r: u32)
    ensures
        r == gltf@.game_objects.len() as u32,
{
    assert(gltf@.game_objects.dom() =~= gltf.game_objects@.dom());
    gltf.game_objects.len() as u32
}

/// The name of GameObject `go_idx`, or `None` when there is no such GameObject.
pub fn gltforge_game_object_name(gltf: &UnityGltf, go_idx: u32) -> (r: Option<&String>)
    ensures
        r is Some <==> gltf@.game_objects.contains_key(go_idx),
        r matches Some(s) ==> s@ == gltf@.game_objects[go_idx].name,
{
    match gltf.game_objects.get(&go_idx) {
        Some(g) => Some(&g.name),
        None => None,
    }
}

/// The number of children of GameObject `go_idx` (`0` when there is no such GameObject).
pub fn gltforge_game_object_child_count(gltf: &UnityGltf, go_idx: u32) -> (r: u32)
    ensures
        r == (if gltf@.game_objects.contains_key(go_idx) { gltf@.game_objects[go_idx].children.len() as u32 } else { 0 }),
{
    match gltf.game_objects.get(&go_idx) {
        Some(g) => g.children.len() as u32,
        None => 0,
    }
}

/// The index of the `slot`-th child of GameObject `go_idx`, or `u32::MAX` when out of range.
pub fn gltforge_game_object_child(gltf: &UnityGltf, go_idx: u32, slot: u32) -> (r: u32)
    ensures
        r == (if gltf@.game_objects.contains_key(go_idx) && (slot as nat) < gltf@.game_objects[go_idx].children.len() {
            gltf@.game_objects[go_idx].children[slot as int]
        } else {
            u32::MAX
        }),
{
    match gltf.game_objects.get(&go_idx) {
        Some(g) => if (slot as usize) < g.children.len() { g.children[slot as usize] } else { u32::MAX },
        None => u32::MAX,
    }
}

/// The number of mesh references of GameObject `go_idx` (`0` when there is no such GameObject).
pub fn gltforge_game_object_mesh_count(gltf: &UnityGltf, go_idx: u32) -> (r: u32)
    ensures
        r == (if gltf@.game_objects.contains_key(go_idx) { gltf@.game_objects[go_idx].mesh_indices.len() as u32 } else { 0 }),
{
    match gltf.game_objects.get(&go_idx) {
        Some(g) => g.mesh_indices.len() as u32,
        None => 0,
    }
}

/// The mesh index of the `slot`-th mesh reference of GameObject `go_idx`, or `u32::MAX`.
pub fn gltforge_game_object_mesh_index(gltf: &UnityGltf, go_idx: u32, slot: u32) -> (r: u32)
    ensures
        r == (if gltf@.game_objects.contains_key(go_idx) && (slot as nat) < gltf@.game_objects[go_idx].mesh_indices.len() {
            gltf@.game_objects[go_idx].mesh_indices[slot as int]
        } else {
            u32::MAX
        }),
{
    match gltf.game_objects.get(&go_idx) {
        Some(g) => if (slot as usize) < g.mesh_indices.len() { g.mesh_indices[slot as usize] } else { u32::MAX },
        None => u32::MAX,
    }
}

/// The local transform of GameObject `go_idx` laid out as
/// `[px, py, pz, rx, ry, rz, rw, sx, sy, sz]`; identity when there is no such GameObject.
pub open spec fn spec_transform_layout(t: UnityTransform) -> [u32; 10] {
    [t.position[0], t.position[1], t.position[2], t.rotation[0], t.rotation[1], t.rotation[2], t.rotation[3], t.scale[0], t.scale[1], t.scale[2]]
}

/// The local transform of GameObject `go_idx` as ten float bit patterns
/// `[px, py, pz, rx, ry, rz, rw, sx, sy, sz]`, identity when out of range.
pub fn gltforge_game_object_transform(gltf: &UnityGltf, go_idx: u32) -> (r: [u32; 10])
    ensures
        r == spec_transform_layout(
            if gltf@.game_objects.contains_key(go_idx) { gltf@.game_objects[go_idx].transform } else { spec_identity() },
        ),
{
    let t = match gltf.game_objects.get(&go_idx) {
        Some(g) => g.transform,
        None => identity(),
    };
    [t.position[0], t.position[1], t.position[2], t.rotation[0], t.rotation[1], t.rotation[2], t.rotation[3], t.scale[0], t.scale[1], t.scale[2]]
}

} // verus!

verus! {

// ---- meshes -----------------------------------------------------------------

/// The number of meshes.
pub fn gltforge_mesh_count(gltf: &UnityGltf) -> (r: u32)
    ensures
        r == gltf@.meshes.len() as u32,
{
    assert(gltf@.meshes.dom() =~= gltf.meshes@.dom());
    gltf.meshes.len() as u32
}

/// The name of mesh `mesh_idx`, or `None` when there is no such mesh.
pub fn gltforge_mesh_name(gltf: &UnityGltf, mesh_idx: u32) -> (r: Option<&String>)
    ensures
        r is Some <==> gltf@.meshes.contains_key(mesh_idx),
        r matches Some(s) ==> s@ == gltf@.meshes[mesh_idx].name,
{
    match gltf.meshes.get(&mesh_idx) {
        Some(m) => Some(&m.name),
        None => None,
    }
}

/// The vertex count of mesh `mesh_idx` (`0` when there is no such mesh).
pub fn gltforge_mesh_vertex_count(gltf: &UnityGltf, mesh_idx: u32) -> (r: u32)
    ensures
        r == (if gltf@.meshes.contains_key(mesh_idx) { gltf@.meshes[mesh_idx].vertices.len() as u32 } else { 0 }),
{
    match gltf.meshes.get(&mesh_idx) {
        Some(m) => m.vertices.len() as u32,
        None => 0,
    }
}

/// The index format of mesh `mesh_idx`: `32` when its first sub-mesh holds `u32`
/// indices, `16` otherwise.
pub fn gltforge_mesh_index_format(gltf: &UnityGltf, mesh_idx: u32) -> (r: u32)
    ensures
        r == (if gltf@.meshes.contains_key(mesh_idx) && gltf@.meshes[mesh_idx].sub_meshes.len() > 0
            && gltf@.meshes[mesh_idx].sub_meshes[0].indices is U32 { 32u32 } else { 16u32 }),
{
    match gltf.meshes.get(&mesh_idx) {
        Some(m) => {
            if m.sub_meshes.len() > 0 {
                assert(m@.sub_meshes[0] == m.sub_meshes@[0]@);
                match &m.sub_meshes[0].indices {
                    UnityIndices::U32(_) => 32,
                    UnityIndices::U16(_) => 16,
                }
            } else {
                16
            }
        },
        None => 16,
    }
}

/// The positions of mesh `mesh_idx`, or `None` when there is no such mesh.
pub fn gltforge_mesh_positions(gltf: &UnityGltf, mesh_idx: u32) -> (r: Option<&Vec<[u32; 3]>>)
    ensures
        r is Some <==> gltf@.meshes.contains_key(mesh_idx),
        r matches Some(v) ==> v@ == gltf@.meshes[mesh_idx].vertices,
{
    match gltf.meshes.get(&mesh_idx) {
        Some(m) => Some(&m.vertices),
        None => None,
    }
}

/// The normals of mesh `mesh_idx`, or `None` when there is no such mesh or it has none.
pub fn gltforge_mesh_normals(gltf: &UnityGltf, mesh_idx: u32) -> (r: Option<&Vec<[u32; 3]>>)
    ensures
        r is Some <==> gltf@.meshes.contains_key(mesh_idx) && gltf@.meshes[mesh_idx].normals.len() > 0,
        r matches Some(v) ==> v@ == gltf@.meshes[mesh_idx].normals,
{
    match gltf.meshes.get(&mesh_idx) {
        Some(m) => if m.normals.len() > 0 { Some(&m.normals) } else { None },
        None => None,
    }
}

/// The tangents of mesh `mesh_idx`, or `None` when there is no such mesh or it has none.
pub fn gltforge_mesh_tangents(gltf: &UnityGltf, mesh_idx: u32) -> (r: Option<&Vec<[u32; 4]>>)
    ensures
        r is Some <==> gltf@.meshes.contains_key(mesh_idx) && gltf@.meshes[mesh_idx].tangents.len() > 0,
        r matches Some(v) ==> v@ == gltf@.meshes[mesh_idx].tangents,
{
    match gltf.meshes.get(&mesh_idx) {
        Some(m) => if m.tangents.len() > 0 { Some(&m.tangents) } else { None },
        None => None,
    }
}

/// The number of texture-coordinate sets of mesh `mesh_idx` (`0` when there is no such mesh).
pub fn gltforge_mesh_uv_channel_count(gltf: &UnityGltf, mesh_idx: u32) -> (r: u32)
    ensures
        r == (if gltf@.meshes.contains_key(mesh_idx) { gltf@.meshes[mesh_idx].uvs.len() as u32 } else { 0 }),
{
    match gltf.meshes.get(&mesh_idx) {
        Some(m) => m.uvs.len() as u32,
        None => 0,
    }
}

/// Texture-coordinate set `channel` of mesh `mesh_idx`, or `None` when out of range.
pub fn gltforge_mesh_uvs(gltf: &UnityGltf, mesh_idx: u32, channel: u32) -> (r: Option<&Vec<[u32; 2]>>)
    ensures
        r is Some <==> gltf@.meshes.contains_key(mesh_idx) && (channel as nat) < gltf@.meshes[mesh_idx].uvs.len(),
        r matches Some(v) ==> v@ == gltf@.meshes[mesh_idx].uvs[channel as int],
{
    match gltf.meshes.get(&mesh_idx) {
        Some(m) => if (channel as usize) < m.uvs.len() { Some(&m.uvs[channel as usize]) } else { None },
        None => None,
    }
}

// ---- sub-meshes ---------------------------------------------------------------

/// The number of sub-meshes of mesh `mesh_idx` (`0` when there is no such mesh).
pub fn gltforge_mesh_submesh_count(gltf: &UnityGltf, mesh_idx: u32) -> (r: u32)
    ensures
        r == (if gltf@.meshes.contains_key(mesh_idx) { gltf@.meshes[mesh_idx].sub_meshes.len() as u32 } else { 0 }),
{
    match gltf.meshes.get(&mesh_idx) {
        Some(m) => m.sub_meshes.len() as u32,
        None => 0,
    }
}

/// The `u16` indices of sub-mesh `submesh` of mesh `mesh_idx`; `None` when out of
/// range or when the mesh uses `u32` indices.
pub fn gltforge_mesh_submesh_indices_u16(gltf: &UnityGltf, mesh_idx: u32, submesh: u32) -> (r: Option<&Vec<u16>>)
    ensures
        r is Some <==> gltf@.meshes.contains_key(mesh_idx) && (submesh as nat) < gltf@.meshes[mesh_idx].sub_meshes.len()
            && gltf@.meshes[mesh_idx].sub_meshes[submesh as int].indices is U16,
        r matches Some(v) ==> gltf@.meshes[mesh_idx].sub_meshes[submesh as int].indices == IndicesView::U16(v@),
{
    match gltf.meshes.get(&mesh_idx) {
        Some(m) => if (submesh as usize) < m.sub_meshes.len() {
            assert(m@.sub_meshes[submesh as int] == m.sub_meshes@[submesh as int]@);
            match &m.sub_meshes[submesh as usize].indices {
                UnityIndices::U16(v) => Some(v),
                UnityIndices::U32(_) => None,
            }
        } else {
            None
        },
        None => None,
    }
}

/// The `u32` indices of sub-mesh `submesh` of mesh `mesh_idx`; `None` when out of
/// range or when the mesh uses `u16` indices.
pub fn gltforge_mesh_submesh_indices_u32(gltf: &UnityGltf, mesh_idx: u32, submesh: u32) -> (r: Option<&Vec<u32>>)
    ensures
        r is Some <==> gltf@.meshes.contains_key(mesh_idx) && (submesh as nat) < gltf@.meshes[mesh_idx].sub_meshes.len()
            && gltf@.meshes[mesh_idx].sub_meshes[submesh as int].indices is U32,
        r matches Some(v) ==> gltf@.meshes[mesh_idx].sub_meshes[submesh as int].indices == IndicesView::U32(v@),
{
    match gltf.meshes.get(&mesh_idx) {
        Some(m) => if (submesh as usize) < m.sub_meshes.len() {
            assert(m@.sub_meshes[submesh as int] == m.sub_meshes@[submesh as int]@);
            match &m.sub_meshes[submesh as usize].indices {
                UnityIndices::U32(v) => Some(v),
                UnityIndices::U16(_) => None,
            }
        } else {
            None
        },
        None => None,
    }
}

/// An optional index as the plugin reports it: the index (as `i32`), or `-1` when absent.
pub open spec fn spec_index_or_minus_one(i: Option<u32>) -> i32 {
    match i {
        Some(i) => i as i32,
        None => -1i32,
    }
}

fn index_or_minus_one(i: Option<u32>) -> (r: i32)
    ensures
        r == spec_index_or_minus_one(i),
{
    match i {
        Some(i) => i as i32,
        None => -1,
    }
}

/// The material index of sub-mesh `submesh` of mesh `mesh_idx`, or `-1` when out of
/// range or when the primitive names no material.
pub fn gltforge_mesh_submesh_material(gltf: &UnityGltf, mesh_idx: u32, submesh: u32) -> (r: i32)
    ensures
        r == (if gltf@.meshes.contains_key(mesh_idx) && (submesh as nat) < gltf@.meshes[mesh_idx].sub_meshes.len() {
            spec_index_or_minus_one(gltf@.meshes[mesh_idx].sub_meshes[submesh as int].material_index)
        } else {
            -1i32
        }),
{
    match gltf.meshes.get(&mesh_idx) {
        Some(m) => if (submesh as usize) < m.sub_meshes.len() {
            assert(m@.sub_meshes[submesh as int] == m.sub_meshes@[submesh as int]@);
            index_or_minus_one(m.sub_meshes[submesh as usize].material_index)
        } else {
            -1
        },
        None => -1,
    }
}

} // verus!

verus! {

// ---- images -----------------------------------------------------------------

/// The number of images.
pub fn gltforge_image_count(gltf: &UnityGltf) -> (r: u32)
    ensures
        r == gltf@.images.len() as u32,
{
    assert(gltf@.images.dom() =~= gltf.images@.dom());
    gltf.images.len() as u32
}

/// The name of image `image_idx`, or `None` when there is no such image.
pub fn gltforge_image_name(gltf: &UnityGltf, image_idx: u32) -> (r: Option<&String>)
    ensures
        r is Some <==> gltf@.images.contains_key(image_idx),
        r matches Some(s) ==> s@ == gltf@.images[image_idx].name,
{
    match gltf.images.get(&image_idx) {
        Some(i) => Some(&i.name),
        None => None,
    }
}

/// The URI of image `image_idx`, or `None` when there is no such image or it is embedded.
pub fn gltforge_image_uri(gltf: &UnityGltf, image_idx: u32) -> (r: Option<&String>)
    ensures
        r is Some <==> gltf@.images.contains_key(image_idx) && gltf@.images[image_idx].uri is Some,
        r matches Some(s) ==> gltf@.images[image_idx].uri == Some(s@),
{
    match gltf.images.get(&image_idx) {
        Some(i) => match &i.uri {
            Some(u) => Some(u),
            None => None,
        },
        None => None,
    }
}

/// The embedded bytes of image `image_idx`, or `None` when there is no such image or
/// it is URI-based.
pub fn gltforge_image_bytes(gltf: &UnityGltf, image_idx: u32) -> (r: Option<&Vec<u8>>)
    ensures
        r is Some <==> gltf@.images.contains_key(image_idx) && gltf@.images[image_idx].bytes is Some,
        r matches Some(b) ==> gltf@.images[image_idx].bytes == Some(b@),
{
    match gltf.images.get(&image_idx) {
        Some(i) => match &i.bytes {
            Some(b) => Some(b),
            None => None,
        },
        None => None,
    }
}

// ---- materials --------------------------------------------------------------

/// The number of materials.
pub fn gltforge_pbr_metallic_roughness_count(gltf: &UnityGltf) -> (r: u32)
    ensures
        r == gltf@.pbr_metallic_roughness.len() as u32,
{
    assert(gltf@.pbr_metallic_roughness.dom() =~= gltf.pbr_metallic_roughness@.dom());
    gltf.pbr_metallic_roughness.len() as u32
}

/// The name of material `mat_idx`, or `None` when there is no such material.
pub fn gltforge_pbr_metallic_roughness_name(gltf: &UnityGltf, mat_idx: u32) -> (r: Option<&String>)
    ensures
        r is Some <==> gltf@.pbr_metallic_roughness.contains_key(mat_idx),
        r matches Some(s) ==> s@ == gltf@.pbr_metallic_roughness[mat_idx].name,
{
    match gltf.pbr_metallic_roughness.get(&mat_idx) {
        Some(m) => Some(&m.name),
        None => None,
    }
}

/// The base color texture's image index, or `-1`.
pub fn gltforge_pbr_metallic_roughness_base_color_texture(gltf: &UnityGltf, mat_idx: u32) -> (r: i32)
    ensures
        r == (if gltf@.pbr_metallic_roughness.contains_key(mat_idx) {
            spec_index_or_minus_one(gltf@.pbr_metallic_roughness[mat_idx].base_color_texture)
        } else { -1i32 }),
{
    match gltf.pbr_metallic_roughness.get(&mat_idx) {
        Some(m) => index_or_minus_one(m.base_color_texture),
        None => -1,
    }
}

/// The metallic-roughness texture's image index, or `-1`.
pub fn gltforge_pbr_metallic_roughness_metallic_roughness_texture(gltf: &UnityGltf, mat_idx: u32) -> (r: i32)
    ensures
        r == (if gltf@.pbr_metallic_roughness.contains_key(mat_idx) {
            spec_index_or_minus_one(gltf@.pbr_metallic_roughness[mat_idx].metallic_roughness_texture)
        } else { -1i32 }),
{
    match gltf.pbr_metallic_roughness.get(&mat_idx) {
        Some(m) => index_or_minus_one(m.metallic_roughness_texture),
        None => -1,
    }
}

/// The normal texture's image index, or `-1`.
pub fn gltforge_pbr_metallic_roughness_normal_texture(gltf: &UnityGltf, mat_idx: u32) -> (r: i32)
    ensures
        r == (if gltf@.pbr_metallic_roughness.contains_key(mat_idx) {
            spec_index_or_minus_one(gltf@.pbr_metallic_roughness[mat_idx].normal_texture)
        } else { -1i32 }),
{
    match gltf.pbr_metallic_roughness.get(&mat_idx) {
        Some(m) => index_or_minus_one(m.normal_texture),
        None => -1,
    }
}

/// The occlusion texture's image index, or `-1`.
pub fn gltforge_pbr_metallic_roughness_occlusion_texture(gltf: &UnityGltf, mat_idx: u32) -> (r: i32)
    ensures
        r == (if gltf@.pbr_metallic_roughness.contains_key(mat_idx) {
            spec_index_or_minus_one(gltf@.pbr_metallic_roughness[mat_idx].occlusion_texture)
        } else { -1i32 }),
{
    match gltf.pbr_metallic_roughness.get(&mat_idx) {
        Some(m) => index_or_minus_one(m.occlusion_texture),
        None => -1,
    }
}

/// The emissive texture's image index, or `-1`.
pub fn gltforge_pbr_metallic_roughness_emissive_texture(gltf: &UnityGltf, mat_idx: u32) -> (r: i32)
    ensures
        r == (if gltf@.pbr_metallic_roughness.contains_key(mat_idx) {
            spec_index_or_minus_one(gltf@.pbr_metallic_roughness[mat_idx].emissive_texture)
        } else { -1i32 }),
{
    match gltf.pbr_metallic_roughness.get(&mat_idx) {
        Some(m) => index_or_minus_one(m.emissive_texture),
        None => -1,
    }
}

/// The RGBA base color factor; `[1, 1, 1, 1]` when there is no such material.
pub fn gltforge_pbr_metallic_roughness_base_color_factor(gltf: &UnityGltf, mat_idx: u32) -> (r: [u32; 4])
    ensures
        r == (if gltf@.pbr_metallic_roughness.contains_key(mat_idx) {
            gltf@.pbr_metallic_roughness[mat_idx].base_color_factor
        } else { [F32_ONE, F32_ONE, F32_ONE, F32_ONE] }),
{
    match gltf.pbr_metallic_roughness.get(&mat_idx) {
        Some(m) => m.base_color_factor,
        None => [F32_ONE, F32_ONE, F32_ONE, F32_ONE],
    }
}

/// The metallic factor; `1.0` when there is no such material.
pub fn gltforge_pbr_metallic_roughness_metallic_factor(gltf: &UnityGltf, mat_idx: u32) -> (r: u32)
    ensures
        r == (if gltf@.pbr_metallic_roughness.contains_key(mat_idx) {
            gltf@.pbr_metallic_roughness[mat_idx].metallic_factor
        } else { F32_ONE }),
{
    match gltf.pbr_metallic_roughness.get(&mat_idx) {
        Some(m) => m.metallic_factor,
        None => F32_ONE,
    }
}

/// The roughness factor; `1.0` when there is no such material.
pub fn gltforge_pbr_metallic_roughness_roughness_factor(gltf: &UnityGltf, mat_idx: u32) -> (r: u32)
    ensures
        r == (if gltf@.pbr_metallic_roughness.contains_key(mat_idx) {
            gltf@.pbr_metallic_roughness[mat_idx].roughness_factor
        } else { F32_ONE }),
{
    match gltf.pbr_metallic_roughness.get(&mat_idx) {
        Some(m) => m.roughness_factor,
        None => F32_ONE,
    }
}

/// The normal-map scale; `1.0` when there is no such material.
pub fn gltforge_pbr_metallic_roughness_normal_scale(gltf: &UnityGltf, mat_idx: u32) -> (r: u32)
    ensures
        r == (if gltf@.pbr_metallic_roughness.contains_key(mat_idx) {
            gltf@.pbr_metallic_roughness[mat_idx].normal_scale
        } else { F32_ONE }),
{
    match gltf.pbr_metallic_roughness.get(&mat_idx) {
        Some(m) => m.normal_scale,
        None => F32_ONE,
    }
}

/// The occlusion strength; `1.0` when there is no such material.
pub fn gltforge_pbr_metallic_roughness_occlusion_strength(gltf: &UnityGltf, mat_idx: u32) -> (r: u32)
    ensures
        r == (if gltf@.pbr_metallic_roughness.contains_key(mat_idx) {
            gltf@.pbr_metallic_roughness[mat_idx].occlusion_strength
        } else { F32_ONE }),
{
    match gltf.pbr_metallic_roughness.get(&mat_idx) {
        Some(m) => m.occlusion_strength,
        None => F32_ONE,
    }
}

/// The RGB emissive factor; `[0, 0, 0]` when there is no such material.
pub fn gltforge_pbr_metallic_roughness_emissive_factor(gltf: &UnityGltf, mat_idx: u32) -> (r: [u32; 3])
    ensures
        r == (if gltf@.pbr_metallic_roughness.contains_key(mat_idx) {
            gltf@.pbr_metallic_roughness[mat_idx].emissive_factor
        } else { [F32_ZERO, F32_ZERO, F32_ZERO] }),
{
    match gltf.pbr_metallic_roughness.get(&mat_idx) {
        Some(m) => m.emissive_factor,
        None => [F32_ZERO, F32_ZERO, F32_ZERO],
    }
}

/// The alpha cutoff; `0.5` when there is no such material.
pub fn gltforge_pbr_metallic_roughness_alpha_cutoff(gltf: &UnityGltf, mat_idx: u32) -> (r: u32)
    ensures
        r == (if gltf@.pbr_metallic_roughness.contains_key(mat_idx) {
            gltf@.pbr_metallic_roughness[mat_idx].alpha_cutoff
        } else { F32_HALF }),
{
    match gltf.pbr_metallic_roughness.get(&mat_idx) {
        Some(m) => m.alpha_cutoff,
        None => F32_HALF,
    }
}

/// The alpha mode (`0` opaque, `1` mask, `2` blend); opaque when there is no such material.
pub fn gltforge_pbr_metallic_roughness_alpha_mode(gltf: &UnityGltf, mat_idx: u32) -> (r: u32)
    ensures
        r == (if gltf@.pbr_metallic_roughness.contains_key(mat_idx) {
            gltf@.pbr_metallic_roughness[mat_idx].alpha_mode
        } else { ALPHA_MODE_OPAQUE }),
{
    match gltf.pbr_metallic_roughness.get(&mat_idx) {
        Some(m) => m.alpha_mode,
        None => ALPHA_MODE_OPAQUE,
    }
}

/// Unity's cull mode: `0` (off) for a double-sided material, `2` (back) otherwise,
/// and `2` when there is no such material.
pub fn gltforge_pbr_metallic_roughness_cull(gltf: &UnityGltf, mat_idx: u32) -> (r: u32)
    ensures
        r == (if gltf@.pbr_metallic_roughness.contains_key(mat_idx) && gltf@.pbr_metallic_roughness[mat_idx].double_sided { 0u32 } else { 2u32 }),
{
    let double_sided = match gltf.pbr_metallic_roughness.get(&mat_idx) {
        Some(m) => m.double_sided,
        None => false,
    };
    if double_sided { 0 } else { 2 }
}

} // verus!
