//! The Unity-shaped data the importer produces: GameObjects, meshes,
//! sub-meshes, images and PBR materials, in Unity's left-handed coordinate
//! system. Floats are held as their `f32` bit patterns.
use vstd::prelude::*;
use crate::bits::{F32_ONE, F32_ZERO, F32_HALF};

verus! {

/// Alpha mode constants for [`UnityPbrMetallicRoughness::alpha_mode`].
pub const ALPHA_MODE_OPAQUE: u32 = 0;
pub const ALPHA_MODE_MASK: u32 = 1;
pub const ALPHA_MODE_BLEND: u32 = 2;

/// `[0.0, 0.0, 0.0]`.
pub const ZERO_VEC3: [u32; 3] = [0u32, 0u32, 0u32];
/// `[1.0, 1.0, 1.0]`.
pub const ONE_VEC3: [u32; 3] = [0x3F80_0000u32, 0x3F80_0000u32, 0x3F80_0000u32];
/// The identity quaternion `[0.0, 0.0, 0.0, 1.0]`.
pub const IDENTITY_QUATERNION: [u32; 4] = [0u32, 0u32, 0u32, 0x3F80_0000u32];

/// The local transform of a Unity GameObject, in Unity's left-handed system.
#[derive(Clone, Copy, Debug)]
pub struct UnityTransform {
    /// Local position — X negated relative to glTF.
    pub position: [u32; 3],
    /// Local rotation `[x, y, z, w]` — X and W negated relative to glTF.
    pub rotation: [u32; 4],
    /// Local scale — unchanged from glTF.
    pub scale: [u32; 3],
}

/// The identity transform: zero position, identity rotation, unit scale.
pub open spec fn spec_identity() -> UnityTransform {
    UnityTransform {
        position: [F32_ZERO, F32_ZERO, F32_ZERO],
        rotation: [F32_ZERO, F32_ZERO, F32_ZERO, F32_ONE],
        scale: [F32_ONE, F32_ONE, F32_ONE],
    }
}

/// The identity transform.
pub fn identity() -> (t: UnityTransform)
    ensures
        t == spec_identity(),
{
    UnityTransform {
        position: ZERO_VEC3,
        rotation: IDENTITY_QUATERNION,
        scale: ONE_VEC3,
    }
}

impl Default for UnityTransform {
    fn default() -> (t: Self)
        ensures
            t == spec_identity(),
    {
        identity()
    }
}

/// A Unity-shaped glTF node. References children and meshes by index.
pub struct UnityGameObject {
    /// The GameObject name. Falls back to the glTF node index if the source node is unnamed.
    pub name: String,
    /// Indices of child GameObjects.
    pub children: Vec<u32>,
    /// Indices of meshes referenced by this GameObject (at most one in glTF).
    pub mesh_indices: Vec<u32>,
    /// Local transform in Unity's left-handed coordinate system.
    pub transform: UnityTransform,
}

/// The mathematical content of a [`UnityGameObject`].
pub struct GameObjectView {
    pub name: Seq<char>,
    pub children: Seq<u32>,
    pub mesh_indices: Seq<u32>,
    pub transform: UnityTransform,
}

impl View for UnityGameObject {
    type V = GameObjectView;

    open spec fn view(&self) -> GameObjectView {
        GameObjectView {
            name: self.name@,
            children: self.children@,
            mesh_indices: self.mesh_indices@,
            transform: self.transform,
        }
    }
}

/// A glTF image entry.
pub struct UnityImage {
    /// The image name. Falls back to the image index if unnamed.
    pub name: String,
    /// The URI of the image, if it references an external file.
    pub uri: Option<String>,
    /// The raw encoded image bytes for buffer-view-embedded images.
    pub bytes: Option<Vec<u8>>,
}

/// The mathematical content of a [`UnityImage`].
pub struct ImageView {
    pub name: Seq<char>,
    pub uri: Option<Seq<char>>,
    pub bytes: Option<Seq<u8>>,
}

impl View for UnityImage {
    type V = ImageView;

    open spec fn view(&self) -> ImageView {
        ImageView {
            name: self.name@,
            uri: match self.uri { Some(u) => Some(u@), None => None },
            bytes: match self.bytes { Some(b) => Some(b@), None => None },
        }
    }
}

/// Index buffer format, selected per mesh from its vertex count.
pub enum UnityIndices {
    /// Used when `vertex_count <= 65535` (Unity's `IndexFormat.UInt16`).
    U16(Vec<u16>),
    /// Used when `vertex_count > 65535` (Unity's `IndexFormat.UInt32`).
    U32(Vec<u32>),
}

/// The mathematical content of a [`UnityIndices`].
pub enum IndicesView {
    U16(Seq<u16>),
    U32(Seq<u32>),
}

impl View for UnityIndices {
    type V = IndicesView;

    open spec fn view(&self) -> IndicesView {
        match self {
            UnityIndices::U16(v) => IndicesView::U16(v@),
            UnityIndices::U32(v) => IndicesView::U32(v@),
        }
    }
}

/// A single glTF primitive converted to a Unity sub-mesh.
pub struct UnitySubMesh {
    /// Triangle indices with winding reversed, as absolute offsets into the
    /// parent mesh's vertex array.
    pub indices: UnityIndices,
    /// The glTF material index of the primitive, if it names one.
    pub material_index: Option<u32>,
}

/// The mathematical content of a [`UnitySubMesh`].
pub struct SubMeshView {
    pub indices: IndicesView,
    pub material_index: Option<u32>,
}

impl View for UnitySubMesh {
    type V = SubMeshView;

    open spec fn view(&self) -> SubMeshView {
        SubMeshView { indices: self.indices@, material_index: self.material_index }
    }
}

/// A Unity-shaped glTF mesh: one shared vertex array with one sub-mesh per primitive.
pub struct UnityMesh {
    /// Mesh name. Falls back to the glTF mesh index if unnamed.
    pub name: String,
    /// All vertex positions across all primitives, concatenated (X negated).
    pub vertices: Vec<[u32; 3]>,
    /// Vertex normals (X negated), one per vertex, or empty.
    pub normals: Vec<[u32; 3]>,
    /// Vertex tangents (X and W negated), one per vertex, or empty.
    pub tangents: Vec<[u32; 4]>,
    /// UV channels densely packed from channel 0: `uvs[k]` holds `TEXCOORD_k`
    /// of every vertex, as the document stores it (the flip of V to Unity's
    /// bottom-left origin is floating-point arithmetic, made where the floats
    /// are handed to Unity).
    pub uvs: Vec<Vec<[u32; 2]>>,
    /// One sub-mesh per glTF primitive.
    pub sub_meshes: Vec<UnitySubMesh>,
}

/// The mathematical content of a [`UnityMesh`].
pub struct MeshView {
    pub name: Seq<char>,
    pub vertices: Seq<[u32; 3]>,
    pub normals: Seq<[u32; 3]>,
    pub tangents: Seq<[u32; 4]>,
    pub uvs: Seq<Seq<[u32; 2]>>,
    pub sub_meshes: Seq<SubMeshView>,
}

impl View for UnityMesh {
    type V = MeshView;

    open spec fn view(&self) -> MeshView {
        MeshView {
            name: self.name@,
            vertices: self.vertices@,
            normals: self.normals@,
            tangents: self.tangents@,
            uvs: self.uvs@.map_values(|c: Vec<[u32; 2]>| c@),
            sub_meshes: self.sub_meshes@.map_values(|s: UnitySubMesh| s@),
        }
    }
}

/// A glTF 2.0 PBR metallic-roughness material in Unity-ready form. Texture
/// slots hold image indices, already resolved through texture → image.
pub struct UnityPbrMetallicRoughness {
    /// The material name. Falls back to the material index if unnamed.
    pub name: String,
    pub base_color_texture: Option<u32>,
    pub metallic_roughness_texture: Option<u32>,
    pub normal_texture: Option<u32>,
    pub occlusion_texture: Option<u32>,
    pub emissive_texture: Option<u32>,
    /// RGBA base color factor. Default `[1, 1, 1, 1]`.
    pub base_color_factor: [u32; 4],
    /// Default `1`.
    pub metallic_factor: u32,
    /// Default `1`.
    pub roughness_factor: u32,
    /// Default `1`.
    pub normal_scale: u32,
    /// Default `1`.
    pub occlusion_strength: u32,
    /// RGB emissive factor. Default `[0, 0, 0]`.
    pub emissive_factor: [u32; 3],
    /// Default `0.5`.
    pub alpha_cutoff: u32,
    /// `0` = opaque, `1` = mask, `2` = blend.
    pub alpha_mode: u32,
    /// `false` → back-face culling; `true` → no culling.
    pub double_sided: bool,
}

/// The mathematical content of a [`UnityPbrMetallicRoughness`].
pub struct PbrView {
    pub name: Seq<char>,
    pub base_color_texture: Option<u32>,
    pub metallic_roughness_texture: Option<u32>,
    pub normal_texture: Option<u32>,
    pub occlusion_texture: Option<u32>,
    pub emissive_texture: Option<u32>,
    pub base_color_factor: [u32; 4],
    pub metallic_factor: u32,
    pub roughness_factor: u32,
    pub normal_scale: u32,
    pub occlusion_strength: u32,
    pub emissive_factor: [u32; 3],
    pub alpha_cutoff: u32,
    pub alpha_mode: u32,
    pub double_sided: bool,
}

impl View for UnityPbrMetallicRoughness {
    type V = PbrView;

    open spec fn view(&self) -> PbrView {
        PbrView {
            name: self.name@,
            base_color_texture: self.base_color_texture,
            metallic_roughness_texture: self.metallic_roughness_texture,
            normal_texture: self.normal_texture,
            occlusion_texture: self.occlusion_texture,
            emissive_texture: self.emissive_texture,
            base_color_factor: self.base_color_factor,
            metallic_factor: self.metallic_factor,
            roughness_factor: self.roughness_factor,
            normal_scale: self.normal_scale,
            occlusion_strength: self.occlusion_strength,
            emissive_factor: self.emissive_factor,
            alpha_cutoff: self.alpha_cutoff,
            alpha_mode: self.alpha_mode,
            double_sided: self.double_sided,
        }
    }
}

} // verus!
