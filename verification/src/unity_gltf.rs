//! The converted document, and building it from a parsed glTF document and
//! its loaded buffers.
use vstd::prelude::*;
use std::collections::HashMap;
use crate::bits::{F32_ONE, F32_ZERO, neg, spec_neg};
use crate::schema::{
    BufferView, Gltf, Image, Material, MaterialAlphaMode, Node, Scene, Texture, entries, entries_of,
};
use crate::unity_core::{
    ALPHA_MODE_BLEND, ALPHA_MODE_MASK, ALPHA_MODE_OPAQUE, GameObjectView, ImageView, MeshView,
    PbrView, UnityGameObject, UnityImage, UnityMesh, UnityPbrMetallicRoughness, UnityTransform,
    identity, spec_identity,
};
use crate::mesh::{
    build_unity_mesh, first_failure, mesh_data, mesh_resolves, name_or_index, name_or_index_string,
    spec_mesh_view,
};
use crate::error::ConvertError;

verus! {

broadcast use vstd::std_specs::hash::group_hash_axioms;

/// A Unity-shaped glTF — the same structural relationships as glTF, with all
/// data pre-converted to Unity's left-handed coordinate system.
pub struct UnityGltf {
    /// The name of the default scene; the source file stem when the scene has none.
    pub scene_name: String,
    /// Indices of the root GameObjects of the default scene.
    pub root_game_objects: Vec<u32>,
    /// All GameObjects, keyed by their glTF node index.
    pub game_objects: HashMap<u32, UnityGameObject>,
    /// All meshes, keyed by their glTF mesh index.
    pub meshes: HashMap<u32, UnityMesh>,
    /// All images, keyed by their glTF image index.
    pub images: HashMap<u32, UnityImage>,
    /// All materials as PBR metallic-roughness, keyed by their glTF material index.
    pub pbr_metallic_roughness: HashMap<u32, UnityPbrMetallicRoughness>,
}

/// The mathematical content of a [`UnityGltf`].
pub struct UnityGltfView {
    pub scene_name: Seq<char>,
    pub root_game_objects: Seq<u32>,
    pub game_objects: Map<u32, GameObjectView>,
    pub meshes: Map<u32, MeshView>,
    pub images: Map<u32, ImageView>,
    pub pbr_metallic_roughness: Map<u32, PbrView>,
}

impl View for UnityGltf {
    type V = UnityGltfView;

    open spec fn view(&self) -> UnityGltfView {
        UnityGltfView {
            scene_name: self.scene_name@,
            root_game_objects: self.root_game_objects@,
            game_objects: self.game_objects@.map_values(|g: UnityGameObject| g@),
            meshes: self.meshes@.map_values(|m: UnityMesh| m@),
            images: self.images@.map_values(|i: UnityImage| i@),
            pbr_metallic_roughness: self.pbr_metallic_roughness@.map_values(|p: UnityPbrMetallicRoughness| p@),
        }
    }
}

// ---- scene ------------------------------------------------------------------

/// The default scene: `scene` (or scene 0 when the document names none), if it exists.
pub open spec fn default_scene(gltf: Gltf) -> Option<Scene> {
    let idx: nat = match gltf.scene { Some(s) => s as nat, None => 0 };
    if idx < entries(gltf.scenes).len() { Some(entries(gltf.scenes)[idx as int]) } else { None }
}

/// The scene name: the default scene's, or `file_stem`.
pub open spec fn spec_scene_name(gltf: Gltf, file_stem: Seq<char>) -> Seq<char> {
    match default_scene(gltf) {
        Some(s) => match s.name { Some(n) => n@, None => file_stem },
        None => file_stem,
    }
}

/// The root nodes of the default scene (none when there is no such scene).
pub open spec fn spec_root_nodes(gltf: Gltf) -> Seq<u32> {
    match default_scene(gltf) {
        Some(s) => entries(s.nodes),
        None => Seq::empty(),
    }
}

// ---- game objects ------------------------------------------------------------

/// A glTF translation `[x, y, z]` in Unity's system: `[-x, y, z]`.
pub open spec fn spec_unity_position(t: [u32; 3]) -> [u32; 3] {
    [spec_neg(t[0]), t[1], t[2]]
}

/// A glTF rotation `[x, y, z, w]` in Unity's system: `[-x, y, z, -w]`.
pub open spec fn spec_unity_rotation(r: [u32; 4]) -> [u32; 4] {
    [spec_neg(r[0]), r[1], r[2], spec_neg(r[3])]
}

/// The Unity transform of a node: from its matrix's decomposition when it has a
/// matrix, else from its TRS properties, each defaulting to identity.
pub open spec fn spec_node_transform(node: Node) -> UnityTransform {
    match node.matrix_trs {
        Some(trs) => UnityTransform {
            position: spec_unity_position(trs.translation),
            rotation: spec_unity_rotation(trs.rotation),
            scale: trs.scale,
        },
        None => UnityTransform {
            position: match node.translation { Some(t) => spec_unity_position(t), None => spec_identity().position },
            rotation: match node.rotation { Some(r) => spec_unity_rotation(r), None => spec_identity().rotation },
            scale: match node.scale { Some(s) => s, None => spec_identity().scale },
        },
    }
}

/// The GameObject of node `idx`.
pub open spec fn spec_game_object(node: Node, idx: nat) -> GameObjectView {
    GameObjectView {
        name: name_or_index(node.name, idx),
        children: entries(node.children),
        mesh_indices: match node.mesh { Some(m) => seq![m], None => Seq::empty() },
        transform: spec_node_transform(node),
    }
}

fn unity_position(t: [u32; 3]) -> (r: [u32; 3])
    ensures
        r == spec_unity_position(t),
{
    [neg(t[0]), t[1], t[2]]
}

fn unity_rotation(q: [u32; 4]) -> (r: [u32; 4])
    ensures
        r == spec_unity_rotation(q),
{
    [neg(q[0]), q[1], q[2], neg(q[3])]
}

/// Convert a node's local transform to Unity's left-handed system.
pub fn node_transform(node: &Node) -> (t: UnityTransform)
    ensures
        t == spec_node_transform(*node),
{
    match node.matrix_trs {
        Some(trs) => UnityTransform {
            position: unity_position(trs.translation),
            rotation: unity_rotation(trs.rotation),
            scale: trs.scale,
        },
        None => {
            let id = identity();
            UnityTransform {
                position: match node.translation { Some(t) => unity_position(t), None => id.position },
                rotation: match node.rotation { Some(r) => unity_rotation(r), None => id.rotation },
                scale: match node.scale { Some(s) => s, None => id.scale },
            }
        },
    }
}

/// A copy of a list of indices.
pub fn copy_ids(v: &[u32]) -> (r: Vec<u32>)
    ensures
        r@ == v@,
{
    let mut out: Vec<u32> = Vec::new();
    let mut i: usize = 0;
    while i < v.len()
        invariant
            i <= v@.len(),
            out@ =~= v@.take(i as int),
        decreases v@.len() - i,
    {
        out.push(v[i]);
        i = i + 1;
        assert(out@ =~= v@.take(i as int));
    }
    assert(v@.take(v@.len() as int) =~= v@);
    out
}

/// Build the GameObject of node `idx`.
pub fn build_game_object(node: &Node, idx: usize) -> (g: UnityGameObject)
    ensures
        g@ == spec_game_object(*node, idx as nat),
{
    let children = copy_ids(entries_of(&node.children));
    let mut mesh_indices: Vec<u32> = Vec::new();
    match node.mesh {
        Some(m) => mesh_indices.push(m),
        None => {},
    }
    let g = UnityGameObject {
        name: name_or_index_string(&node.name, idx),
        children,
        mesh_indices,
        transform: node_transform(node),
    };
    assert(g@.mesh_indices =~= spec_game_object(*node, idx as nat).mesh_indices);
    g
}

} // verus!

verus! {

// ---- images -----------------------------------------------------------------

/// The bytes of a buffer view: `[byte_offset, byte_offset + byte_length)` of its
/// buffer, when the view and its buffer exist and the range lies inside the buffer.
pub open spec fn spec_buffer_view_bytes(bvi: u32, buffer_views: Seq<BufferView>, buffers: Seq<Vec<u8>>) -> Option<Seq<u8>> {
    if bvi >= buffer_views.len() {
        None
    } else {
        let bv = buffer_views[bvi as int];
        if bv.buffer >= buffers.len() {
            None
        } else {
            let b = buffers[bv.buffer as int]@;
            let end = bv.byte_offset as nat + bv.byte_length as nat;
            if end > b.len() { None } else { Some(b.subrange(bv.byte_offset as int, end as int)) }
        }
    }
}

/// Copy the bytes of a buffer view.
pub fn buffer_view_bytes(bvi: u32, buffer_views: &[BufferView], buffers: &[Vec<u8>]) -> (r: Option<Vec<u8>>)
    ensures
        match spec_buffer_view_bytes(bvi, buffer_views@, buffers@) {
            Some(b) => r matches Some(v) && v@ == b,
            None => r is None,
        },
{
    if bvi as usize >= buffer_views.len() {
        return None;
    }
    let bv = &buffer_views[bvi as usize];
    if bv.buffer as usize >= buffers.len() {
        return None;
    }
    let b = &buffers[bv.buffer as usize];
    let end: u64 = bv.byte_offset as u64 + bv.byte_length as u64;
    if end > b.len() as u64 {
        return None;
    }
    let mut out: Vec<u8> = Vec::new();
    let mut i: usize = bv.byte_offset as usize;
    while i < end as usize
        invariant
            bv.byte_offset <= i <= end <= b@.len(),
            out@ =~= b@.subrange(bv.byte_offset as int, i as int),
        decreases end - i,
    {
        out.push(b[i]);
        i = i + 1;
        assert(out@ =~= b@.subrange(bv.byte_offset as int, i as int));
    }
    Some(out)
}

/// The Unity image of image `idx`: its name (or index), its URI, and — for an
/// image stored in a buffer view — the view's bytes (absent when the view does
/// not resolve).
pub open spec fn spec_image(img: Image, idx: nat, buffer_views: Seq<BufferView>, buffers: Seq<Vec<u8>>) -> ImageView {
    ImageView {
        name: name_or_index(img.name, idx),
        uri: match img.uri { Some(u) => Some(u@), None => None },
        bytes: match img.buffer_view {
            Some(bvi) => spec_buffer_view_bytes(bvi, buffer_views, buffers),
            None => None,
        },
    }
}

/// Build the Unity image of image `idx`.
pub fn build_image(img: &Image, idx: usize, buffer_views: &[BufferView], buffers: &[Vec<u8>]) -> (r: UnityImage)
    ensures
        r@ == spec_image(*img, idx as nat, buffer_views@, buffers@),
{
    let uri = match &img.uri {
        Some(u) => Some(u.clone()),
        None => None,
    };
    let bytes = match img.buffer_view {
        Some(bvi) => buffer_view_bytes(bvi, buffer_views, buffers),
        None => None,
    };
    UnityImage { name: name_or_index_string(&img.name, idx), uri, bytes }
}

// ---- materials --------------------------------------------------------------

/// The image behind texture `index`, when the texture exists and names a source.
pub open spec fn spec_texture_image(textures: Seq<Texture>, index: u32) -> Option<u32> {
    if index < textures.len() { textures[index as int].source } else { None }
}

/// Resolve a texture index to its image index.
pub fn texture_image(textures: &[Texture], index: u32) -> (r: Option<u32>)
    ensures
        r == spec_texture_image(textures@, index),
{
    if (index as usize) < textures.len() { textures[index as usize].source } else { None }
}

/// The Unity alpha mode constant of a glTF alpha mode.
pub open spec fn spec_alpha_mode(m: MaterialAlphaMode) -> u32 {
    match m {
        MaterialAlphaMode::Opaque => ALPHA_MODE_OPAQUE,
        MaterialAlphaMode::Mask => ALPHA_MODE_MASK,
        MaterialAlphaMode::Blend => ALPHA_MODE_BLEND,
    }
}

/// The Unity material of material `idx`: texture slots resolved through the
/// texture → image indirection, factors with the glTF defaults where absent.
pub open spec fn spec_material(mat: Material, idx: nat, textures: Seq<Texture>) -> PbrView {
    PbrView {
        name: name_or_index(mat.name, idx),
        base_color_texture: match mat.pbr_metallic_roughness {
            Some(p) => match p.base_color_texture { Some(t) => spec_texture_image(textures, t.index), None => None },
            None => None,
        },
        metallic_roughness_texture: match mat.pbr_metallic_roughness {
            Some(p) => match p.metallic_roughness_texture { Some(t) => spec_texture_image(textures, t.index), None => None },
            None => None,
        },
        normal_texture: match mat.normal_texture { Some(t) => spec_texture_image(textures, t.index), None => None },
        occlusion_texture: match mat.occlusion_texture { Some(t) => spec_texture_image(textures, t.index), None => None },
        emissive_texture: match mat.emissive_texture { Some(t) => spec_texture_image(textures, t.index), None => None },
        base_color_factor: match mat.pbr_metallic_roughness {
            Some(p) => p.base_color_factor,
            None => [F32_ONE, F32_ONE, F32_ONE, F32_ONE],
        },
        metallic_factor: match mat.pbr_metallic_roughness { Some(p) => p.metallic_factor, None => F32_ONE },
        roughness_factor: match mat.pbr_metallic_roughness { Some(p) => p.roughness_factor, None => F32_ONE },
        normal_scale: match mat.normal_texture { Some(t) => t.scale, None => F32_ONE },
        occlusion_strength: match mat.occlusion_texture { Some(t) => t.strength, None => F32_ONE },
        emissive_factor: mat.emissive_factor,
        alpha_cutoff: mat.alpha_cutoff,
        alpha_mode: spec_alpha_mode(mat.alpha_mode),
        double_sided: mat.double_sided,
    }
}

/// Build the Unity material of material `idx`.
pub fn build_material(mat: &Material, idx: usize, textures: &[Texture]) -> (r: UnityPbrMetallicRoughness)
    ensures
        r@ == spec_material(*mat, idx as nat, textures@),
{
    let (base_color_texture, metallic_roughness_texture, base_color_factor, metallic_factor, roughness_factor) =
        match mat.pbr_metallic_roughness {
            Some(p) => (
                match p.base_color_texture { Some(t) => texture_image(textures, t.index), None => None },
                match p.metallic_roughness_texture { Some(t) => texture_image(textures, t.index), None => None },
                p.base_color_factor,
                p.metallic_factor,
                p.roughness_factor,
            ),
            None => (None, None, [F32_ONE, F32_ONE, F32_ONE, F32_ONE], F32_ONE, F32_ONE),
        };
    let (normal_texture, normal_scale) = match mat.normal_texture {
        Some(t) => (texture_image(textures, t.index), t.scale),
        None => (None, F32_ONE),
    };
    let (occlusion_texture, occlusion_strength) = match mat.occlusion_texture {
        Some(t) => (texture_image(textures, t.index), t.strength),
        None => (None, F32_ONE),
    };
    let emissive_texture = match mat.emissive_texture {
        Some(t) => texture_image(textures, t.index),
        None => None,
    };
    let alpha_mode = match mat.alpha_mode {
        MaterialAlphaMode::Opaque => ALPHA_MODE_OPAQUE,
        MaterialAlphaMode::Mask => ALPHA_MODE_MASK,
        MaterialAlphaMode::Blend => ALPHA_MODE_BLEND,
    };
    UnityPbrMetallicRoughness {
        name: name_or_index_string(&mat.name, idx),
        base_color_texture,
        metallic_roughness_texture,
        normal_texture,
        occlusion_texture,
        emissive_texture,
        base_color_factor,
        metallic_factor,
        roughness_factor,
        normal_scale,
        occlusion_strength,
        emissive_factor: mat.emissive_factor,
        alpha_cutoff: mat.alpha_cutoff,
        alpha_mode,
        double_sided: mat.double_sided,
    }
}

} // verus!

verus! {

// ---- the whole document ------------------------------------------------------

/// Every array that the conversion keys by index has at most 2³² entries, so each
/// index is a `u32` (a glTF id).
pub open spec fn ids_fit(gltf: Gltf) -> bool {
    &&& entries(gltf.nodes).len() <= 0x1_0000_0000
    &&& entries(gltf.meshes).len() <= 0x1_0000_0000
    &&& entries(gltf.images).len() <= 0x1_0000_0000
    &&& entries(gltf.materials).len() <= 0x1_0000_0000
}

/// Every primitive of every mesh resolves.
pub open spec fn doc_resolves(gltf: Gltf, buffers: Seq<Vec<u8>>) -> bool {
    forall|m: int| 0 <= m < entries(gltf.meshes).len() ==> #[trigger] mesh_resolves(
        entries(gltf.meshes)[m], entries(gltf.accessors), entries(gltf.buffer_views), buffers)
}

/// Primitive `p` of mesh `m` is the first of the document, in mesh order, that fails, with `e`.
pub open spec fn first_mesh_failure(gltf: Gltf, buffers: Seq<Vec<u8>>, m: int, p: int, e: ConvertError) -> bool {
    &&& 0 <= m < entries(gltf.meshes).len()
    &&& forall|n: int| 0 <= n < m ==> #[trigger] mesh_resolves(
        entries(gltf.meshes)[n], entries(gltf.accessors), entries(gltf.buffer_views), buffers)
    &&& first_failure(entries(gltf.meshes)[m], p, e, entries(gltf.accessors), entries(gltf.buffer_views), buffers)
}

/// The Unity mesh of mesh `k`.
pub open spec fn spec_unity_mesh(gltf: Gltf, buffers: Seq<Vec<u8>>, k: nat) -> MeshView {
    let mesh = entries(gltf.meshes)[k as int];
    let acc = entries(gltf.accessors);
    let bvs = entries(gltf.buffer_views);
    spec_mesh_view(mesh, k, mesh_data(mesh, acc, bvs, buffers), acc, bvs, buffers)
}

/// The converted document.
pub open spec fn spec_unity_gltf(gltf: Gltf, buffers: Seq<Vec<u8>>, file_stem: Seq<char>) -> UnityGltfView {
    UnityGltfView {
        scene_name: spec_scene_name(gltf, file_stem),
        root_game_objects: spec_root_nodes(gltf),
        game_objects: Map::new(
            |k: u32| (k as nat) < entries(gltf.nodes).len(),
            |k: u32| spec_game_object(entries(gltf.nodes)[k as int], k as nat),
        ),
        meshes: Map::new(
            |k: u32| (k as nat) < entries(gltf.meshes).len(),
            |k: u32| spec_unity_mesh(gltf, buffers, k as nat),
        ),
        images: Map::new(
            |k: u32| (k as nat) < entries(gltf.images).len(),
            |k: u32| spec_image(entries(gltf.images)[k as int], k as nat, entries(gltf.buffer_views), buffers),
        ),
        pbr_metallic_roughness: Map::new(
            |k: u32| (k as nat) < entries(gltf.materials).len(),
            |k: u32| spec_material(entries(gltf.materials)[k as int], k as nat, entries(gltf.textures)),
        ),
    }
}

fn build_game_objects(nodes: &[Node]) -> (r: HashMap<u32, UnityGameObject>)
    requires
        nodes@.len() <= 0x1_0000_0000,
    ensures
        r@.map_values(|g: UnityGameObject| g@) == Map::new(
            |k: u32| (k as nat) < nodes@.len(),
            |k: u32| spec_game_object(nodes@[k as int], k as nat),
        ),
{
    let mut map: HashMap<u32, UnityGameObject> = HashMap::new();
    let mut i: usize = 0;
    while i < nodes.len()
        invariant
            i <= nodes@.len() <= 0x1_0000_0000,
            map@.dom() =~= Set::new(|k: u32| (k as nat) < i),
            forall|k: u32| (k as nat) < i ==> (#[trigger] map@[k])@ == spec_game_object(nodes@[k as int], k as nat),
        decreases nodes@.len() - i,
    {
        let g = build_game_object(&nodes[i], i);
        map.insert(i as u32, g);
        i = i + 1;
    }
    assert(map@.map_values(|g: UnityGameObject| g@) =~= Map::new(
        |k: u32| (k as nat) < nodes@.len(),
        |k: u32| spec_game_object(nodes@[k as int], k as nat),
    ));
    map
}

fn build_images(images: &[Image], buffer_views: &[BufferView], buffers: &[Vec<u8>]) -> (r: HashMap<u32, UnityImage>)
    requires
        images@.len() <= 0x1_0000_0000,
    ensures
        r@.map_values(|g: UnityImage| g@) == Map::new(
            |k: u32| (k as nat) < images@.len(),
            |k: u32| spec_image(images@[k as int], k as nat, buffer_views@, buffers@),
        ),
{
    let mut map: HashMap<u32, UnityImage> = HashMap::new();
    let mut i: usize = 0;
    while i < images.len()
        invariant
            i <= images@.len() <= 0x1_0000_0000,
            map@.dom() =~= Set::new(|k: u32| (k as nat) < i),
            forall|k: u32| (k as nat) < i ==> (#[trigger] map@[k])@ == spec_image(images@[k as int], k as nat, buffer_views@, buffers@),
        decreases images@.len() - i,
    {
        let g = build_image(&images[i], i, buffer_views, buffers);
        map.insert(i as u32, g);
        i = i + 1;
    }
    assert(map@.map_values(|g: UnityImage| g@) =~= Map::new(
        |k: u32| (k as nat) < images@.len(),
        |k: u32| spec_image(images@[k as int], k as nat, buffer_views@, buffers@),
    ));
    map
}

fn build_materials(materials: &[Material], textures: &[Texture]) -> (r: HashMap<u32, UnityPbrMetallicRoughness>)
    requires
        materials@.len() <= 0x1_0000_0000,
    ensures
        r@.map_values(|g: UnityPbrMetallicRoughness| g@) == Map::new(
            |k: u32| (k as nat) < materials@.len(),
            |k: u32| spec_material(materials@[k as int], k as nat, textures@),
        ),
{
    let mut map: HashMap<u32, UnityPbrMetallicRoughness> = HashMap::new();
    let mut i: usize = 0;
    while i < materials.len()
        invariant
            i <= materials@.len() <= 0x1_0000_0000,
            map@.dom() =~= Set::new(|k: u32| (k as nat) < i),
            forall|k: u32| (k as nat) < i ==> (#[trigger] map@[k])@ == spec_material(materials@[k as int], k as nat, textures@),
        decreases materials@.len() - i,
    {
        let g = build_material(&materials[i], i, textures);
        map.insert(i as u32, g);
        i = i + 1;
    }
    assert(map@.map_values(|g: UnityPbrMetallicRoughness| g@) =~= Map::new(
        |k: u32| (k as nat) < materials@.len(),
        |k: u32| spec_material(materials@[k as int], k as nat, textures@),
    ));
    map
}

} // verus!

verus! {

fn build_meshes(gltf: &Gltf, buffers: &[Vec<u8>]) -> (r: Result<HashMap<u32, UnityMesh>, ConvertError>)
    requires
        ids_fit(*gltf),
    ensures
        r is Ok <==> doc_resolves(*gltf, buffers@),
        r matches Ok(map) ==> map@.map_values(|m: UnityMesh| m@) == Map::new(
            |k: u32| (k as nat) < entries(gltf.meshes).len(),
            |k: u32| spec_unity_mesh(*gltf, buffers@, k as nat),
        ),
        r matches Err(e) ==> exists|m: int, p: int| first_mesh_failure(*gltf, buffers@, m, p, e),
{
    let meshes = entries_of(&gltf.meshes);
    let accessors = entries_of(&gltf.accessors);
    let buffer_views = entries_of(&gltf.buffer_views);
    let mut map: HashMap<u32, UnityMesh> = HashMap::new();
    let mut i: usize = 0;
    while i < meshes.len()
        invariant
            meshes@ == entries(gltf.meshes),
            accessors@ == entries(gltf.accessors),
            buffer_views@ == entries(gltf.buffer_views),
            i <= meshes@.len() <= 0x1_0000_0000,
            forall|n: int| 0 <= n < i ==> #[trigger] mesh_resolves(meshes@[n], accessors@, buffer_views@, buffers@),
            map@.dom() =~= Set::new(|k: u32| (k as nat) < i),
            forall|k: u32| (k as nat) < i ==> (#[trigger] map@[k])@ == spec_unity_mesh(*gltf, buffers@, k as nat),
        decreases meshes@.len() - i,
    {
        match build_unity_mesh(&meshes[i], i, accessors, buffer_views, buffers) {
            Ok(m) => {
                map.insert(i as u32, m);
            },
            Err(e) => {
                proof {
                    let p = choose|p: int| first_failure(meshes@[i as int], p, e, accessors@, buffer_views@, buffers@);
                    assert(first_mesh_failure(*gltf, buffers@, i as int, p, e));
                }
                return Err(e);
            },
        }
        i = i + 1;
    }
    assert(map@.map_values(|m: UnityMesh| m@) =~= Map::new(
        |k: u32| (k as nat) < entries(gltf.meshes).len(),
        |k: u32| spec_unity_mesh(*gltf, buffers@, k as nat),
    ));
    Ok(map)
}

/// Build a [`UnityGltf`] from a parsed glTF document and its loaded buffers.
///
/// Converts all nodes and meshes into Unity's left-handed coordinate system.
/// Each glTF mesh becomes one [`UnityMesh`] with a merged vertex array and one
/// sub-mesh per glTF primitive, with indices pre-offset into the shared array.
/// Fails with the first primitive, in mesh order, that cannot be resolved.
pub fn build_unity_gltf(gltf: &Gltf, buffers: &[Vec<u8>], file_stem: &str) -> (r: Result<UnityGltf, ConvertError>)
    requires
        ids_fit(*gltf),
    ensures
        r is Ok <==> doc_resolves(*gltf, buffers@),
        r matches Ok(u) ==> u@ == spec_unity_gltf(*gltf, buffers@, file_stem@),
        r matches Err(e) ==> exists|m: int, p: int| first_mesh_failure(*gltf, buffers@, m, p, e),
{
    // ---- scene ----
    let scenes = entries_of(&gltf.scenes);
    let scene_idx: usize = match gltf.scene { Some(s) => s as usize, None => 0 };
    let (scene_name, root_game_objects) = if scene_idx < scenes.len() {
        let scene = &scenes[scene_idx];
        let name = match &scene.name {
            Some(n) => n.clone(),
            None => file_stem.to_owned(),
        };
        (name, copy_ids(entries_of(&scene.nodes)))
    } else {
        (file_stem.to_owned(), Vec::new())
    };

    // ---- nodes ----
    let game_objects = build_game_objects(entries_of(&gltf.nodes));

    // ---- meshes ----
    let meshes = match build_meshes(gltf, buffers) {
        Ok(m) => m,
        Err(e) => return Err(e),
    };

    // ---- images and materials ----
    let buffer_views = entries_of(&gltf.buffer_views);
    let images = build_images(entries_of(&gltf.images), buffer_views, buffers);
    let pbr_metallic_roughness = build_materials(entries_of(&gltf.materials), entries_of(&gltf.textures));

    let u = UnityGltf { scene_name, root_game_objects, game_objects, meshes, images, pbr_metallic_roughness };
    assert(u@.root_game_objects =~= spec_root_nodes(*gltf));
    Ok(u)
}

} // verus!
