//! The glTF 2.0 document as this library reads and writes it.
//!
//! Only the properties that the conversions consult are held. Every float is
//! held as its `f32` bit pattern (see [`crate::bits`]). A top-level array that
//! the document omits is `None`; the conversions treat it as empty.
use vstd::prelude::*;

verus! {

/// A glTF object index.
pub type GltfId = u32;

/// The data type of an accessor's components.
#[derive(Clone, Copy, Debug, PartialEq, Eq, Structural)]
pub enum AccessorComponentType {
    Byte,
    UnsignedByte,
    Short,
    UnsignedShort,
    UnsignedInt,
    Float,
}

/// The size in bytes of one component.
pub open spec fn spec_byte_size(t: AccessorComponentType) -> nat {
    match t {
        AccessorComponentType::Byte | AccessorComponentType::UnsignedByte => 1,
        AccessorComponentType::Short | AccessorComponentType::UnsignedShort => 2,
        AccessorComponentType::UnsignedInt | AccessorComponentType::Float => 4,
    }
}

impl AccessorComponentType {
    /// The size in bytes of a single component of this type.
    pub fn byte_size(self) -> (r: usize)
        ensures
            r == spec_byte_size(self),
    {
        match self {
            AccessorComponentType::Byte | AccessorComponentType::UnsignedByte => 1,
            AccessorComponentType::Short | AccessorComponentType::UnsignedShort => 2,
            AccessorComponentType::UnsignedInt | AccessorComponentType::Float => 4,
        }
    }
}

/// The dimensionality of an accessor's elements.
#[derive(Clone, Copy, Debug, PartialEq, Eq, Structural)]
pub enum AccessorType {
    Scalar,
    Vec2,
    Vec3,
    Vec4,
    Mat2,
    Mat3,
    Mat4,
}

/// The number of components in one element.
pub open spec fn spec_component_count(t: AccessorType) -> nat {
    match t {
        AccessorType::Scalar => 1,
        AccessorType::Vec2 => 2,
        AccessorType::Vec3 => 3,
        AccessorType::Vec4 => 4,
        AccessorType::Mat2 => 4,
        AccessorType::Mat3 => 9,
        AccessorType::Mat4 => 16,
    }
}

impl AccessorType {
    /// The number of components per element for this accessor type.
    pub fn component_count(self) -> (r: usize)
        ensures
            r == spec_component_count(self),
    {
        match self {
            AccessorType::Scalar => 1,
            AccessorType::Vec2 => 2,
            AccessorType::Vec3 => 3,
            AccessorType::Vec4 => 4,
            AccessorType::Mat2 => 4,
            AccessorType::Mat3 => 9,
            AccessorType::Mat4 => 16,
        }
    }
}

/// The topology of a primitive. The default is `Triangles`.
#[derive(Clone, Copy, Debug, PartialEq, Eq, Structural)]
pub enum MeshPrimitiveMode {
    Points,
    Lines,
    LineLoop,
    LineStrip,
    Triangles,
    TriangleStrip,
    TriangleFan,
}

/// The intended GPU buffer type of a buffer view.
#[derive(Clone, Copy, Debug, PartialEq, Eq, Structural)]
pub enum BufferViewTarget {
    ArrayBuffer,
    ElementArrayBuffer,
}

/// The alpha rendering mode of a material. The default is `Opaque`.
#[derive(Clone, Copy, Debug, PartialEq, Eq, Structural)]
pub enum MaterialAlphaMode {
    Opaque,
    Mask,
    Blend,
}

/// Metadata about the asset.
pub struct Asset {
    pub version: String,
    pub generator: Option<String>,
    pub copyright: Option<String>,
    pub min_version: Option<String>,
}

/// A typed view into a buffer view.
pub struct Accessor {
    pub buffer_view: Option<GltfId>,
    pub byte_offset: Option<u32>,
    pub component_type: AccessorComponentType,
    pub count: u32,
    pub accessor_type: AccessorType,
    /// Whether the accessor carries per-component `min`/`max` bounds. On export
    /// the bounds are computed from the float data where the document is
    /// serialized.
    pub bounded: bool,
}

/// A binary buffer.
pub struct Buffer {
    pub byte_length: u32,
    pub uri: Option<String>,
}

/// A view into a buffer.
pub struct BufferView {
    pub buffer: GltfId,
    pub byte_length: u32,
    pub byte_offset: u32,
    pub byte_stride: Option<u32>,
    pub target: Option<BufferViewTarget>,
}

/// One entry of a primitive's `attributes` object: a semantic name and the
/// accessor it maps to.
pub struct Attribute {
    pub semantic: String,
    pub accessor: GltfId,
}

/// Geometry to be rendered with one material.
pub struct MeshPrimitive {
    pub attributes: Vec<Attribute>,
    pub indices: Option<GltfId>,
    pub material: Option<GltfId>,
    pub mode: MeshPrimitiveMode,
}

/// A set of primitives.
pub struct Mesh {
    pub primitives: Vec<MeshPrimitive>,
    pub name: Option<String>,
}

/// A decomposed local transform: translation, rotation quaternion `[x, y, z, w]`
/// and scale, as float bit patterns.
#[derive(Clone, Copy, Debug)]
pub struct Trs {
    pub translation: [u32; 3],
    pub rotation: [u32; 4],
    pub scale: [u32; 3],
}

/// A node of the scene hierarchy.
pub struct Node {
    pub children: Option<Vec<GltfId>>,
    pub mesh: Option<GltfId>,
    /// The column-major 4×4 matrix, if the node gives one.
    pub matrix: Option<[u32; 16]>,
    /// The translation/rotation/scale decomposition of `matrix`, present
    /// exactly when `matrix` is. The decomposition takes floating-point
    /// arithmetic, so it is made where the document is read.
    pub matrix_trs: Option<Trs>,
    pub translation: Option<[u32; 3]>,
    pub rotation: Option<[u32; 4]>,
    pub scale: Option<[u32; 3]>,
    pub name: Option<String>,
}

/// The root nodes of a scene.
pub struct Scene {
    pub nodes: Option<Vec<GltfId>>,
    pub name: Option<String>,
}

/// Image data: either a URI or a buffer view.
pub struct Image {
    pub uri: Option<String>,
    pub mime_type: Option<String>,
    pub buffer_view: Option<GltfId>,
    pub name: Option<String>,
}

/// A texture and its image source.
pub struct Texture {
    pub source: Option<GltfId>,
    pub name: Option<String>,
}

/// A reference to a texture.
#[derive(Clone, Copy, Debug, PartialEq, Eq, Structural)]
pub struct TextureInfo {
    pub index: GltfId,
    pub tex_coord: u32,
}

/// A normal-map reference with its scale (float bits; default `1.0`).
#[derive(Clone, Copy, Debug, PartialEq, Eq, Structural)]
pub struct NormalTextureInfo {
    pub index: GltfId,
    pub tex_coord: u32,
    pub scale: u32,
}

/// An occlusion-map reference with its strength (float bits; default `1.0`).
#[derive(Clone, Copy, Debug, PartialEq, Eq, Structural)]
pub struct OcclusionTextureInfo {
    pub index: GltfId,
    pub tex_coord: u32,
    pub strength: u32,
}

/// Metallic-roughness parameters (factors as float bits, with the glTF defaults
/// already filled in where the document omits them).
#[derive(Clone, Copy, Debug)]
pub struct PbrMetallicRoughness {
    pub base_color_factor: [u32; 4],
    pub base_color_texture: Option<TextureInfo>,
    pub metallic_factor: u32,
    pub roughness_factor: u32,
    pub metallic_roughness_texture: Option<TextureInfo>,
}

/// A material (factors as float bits, defaults filled in).
pub struct Material {
    pub pbr_metallic_roughness: Option<PbrMetallicRoughness>,
    pub normal_texture: Option<NormalTextureInfo>,
    pub occlusion_texture: Option<OcclusionTextureInfo>,
    pub emissive_texture: Option<TextureInfo>,
    pub emissive_factor: [u32; 3],
    pub alpha_mode: MaterialAlphaMode,
    pub alpha_cutoff: u32,
    pub double_sided: bool,
    pub name: Option<String>,
}

/// The root object of a glTF asset.
pub struct Gltf {
    pub asset: Asset,
    pub scene: Option<GltfId>,
    pub accessors: Option<Vec<Accessor>>,
    pub buffers: Option<Vec<Buffer>>,
    pub buffer_views: Option<Vec<BufferView>>,
    pub images: Option<Vec<Image>>,
    pub materials: Option<Vec<Material>>,
    pub meshes: Option<Vec<Mesh>>,
    pub nodes: Option<Vec<Node>>,
    pub scenes: Option<Vec<Scene>>,
    pub textures: Option<Vec<Texture>>,
    /// The number of entries of the document's `animations` array (0 when absent).
    pub animation_count: usize,
    /// The number of entries of the document's `skins` array (0 when absent).
    pub skin_count: usize,
}

/// The entries of an optional array, empty when it is absent.
pub open spec fn entries<T>(v: Option<Vec<T>>) -> Seq<T> {
    match v {
        Some(v) => v@,
        None => Seq::empty(),
    }
}

/// The entries of an optional array, borrowed (empty when it is absent).
pub fn entries_of<T>(v: &Option<Vec<T>>) -> (r: &[T])
    ensures
        r@ == entries(*v),
{
    match v {
        Some(v) => v.as_slice(),
        None => &[],
    }
}

// ---- attribute names ---------------------------------------------------------

/// No two attributes share a semantic name (a glTF `attributes` object has
/// each key once).
pub open spec fn distinct_semantics(attrs: Seq<Attribute>) -> bool {
    forall|i: int, j: int| 0 <= i < j < attrs.len() ==> (#[trigger] attrs[i]).semantic@ != (#[trigger] attrs[j]).semantic@
}

/// Every primitive of every mesh of the document has distinct attribute names.
pub open spec fn attributes_distinct(gltf: Gltf) -> bool {
    forall|m: int, p: int| 0 <= m < entries(gltf.meshes).len() && 0 <= p < entries(gltf.meshes)[m].primitives@.len()
        ==> distinct_semantics((#[trigger] entries(gltf.meshes)[m].primitives@[p]).attributes@)
}

/// Whether `name` is the semantic of one of `attrs`.
fn names_contain(attrs: &Vec<Attribute>, name: &String) -> (r: bool)
    ensures
        r == exists|i: int| 0 <= i < attrs@.len() && (#[trigger] attrs@[i]).semantic@ == name@,
{
    let mut i: usize = 0;
    while i < attrs.len()
        invariant
            i <= attrs@.len(),
            forall|k: int| 0 <= k < i ==> (#[trigger] attrs@[k]).semantic@ != name@,
        decreases attrs@.len() - i,
    {
        if attrs[i].semantic == *name {
            return true;
        }
        i = i + 1;
    }
    false
}

/// The attributes of a primitive from its `(semantic, accessor)` entries, in
/// order; `None` when a semantic occurs twice.
pub fn attribute_list(named: &Vec<(String, GltfId)>) -> (r: Option<Vec<Attribute>>)
    ensures
        r is Some <==> (forall|i: int, j: int| 0 <= i < j < named@.len() ==> (#[trigger] named@[i]).0@ != (#[trigger] named@[j]).0@),
        r matches Some(v) ==> distinct_semantics(v@) && v@.len() == named@.len()
            && forall|i: int| 0 <= i < named@.len() ==> (#[trigger] v@[i]).semantic@ == named@[i].0@ && v@[i].accessor == named@[i].1,
{
    let mut out: Vec<Attribute> = Vec::new();
    let mut i: usize = 0;
    while i < named.len()
        invariant
            i <= named@.len(),
            out@.len() == i,
            distinct_semantics(out@),
            forall|k: int| 0 <= k < i ==> (#[trigger] out@[k]).semantic@ == named@[k].0@ && out@[k].accessor == named@[k].1,
            forall|a: int, b: int| 0 <= a < b < i ==> (#[trigger] named@[a]).0@ != (#[trigger] named@[b]).0@,
        decreases named@.len() - i,
    {
        let semantic = named[i].0.clone();
        let accessor = named[i].1;
        if names_contain(&out, &semantic) {
            proof {
                let k = choose|k: int| 0 <= k < out@.len() && (#[trigger] out@[k]).semantic@ == semantic@;
                assert(named@[k].0@ == named@[i as int].0@);
            }
            return None;
        }
        assert forall|k: int| 0 <= k < i implies named@[k].0@ != named@[i as int].0@ by {
            assert(out@[k].semantic@ == named@[k].0@);
        }
        out.push(Attribute { semantic, accessor });
        i = i + 1;
    }
    Some(out)
}

/// Whether every primitive of the document has distinct attribute names.
pub fn has_distinct_attributes(gltf: &Gltf) -> (r: bool)
    ensures
        r == attributes_distinct(*gltf),
{
    let meshes = entries_of(&gltf.meshes);
    let mut m: usize = 0;
    while m < meshes.len()
        invariant
            m <= meshes@.len(),
            meshes@ == entries(gltf.meshes),
            forall|a: int, p: int| 0 <= a < m && 0 <= p < meshes@[a].primitives@.len()
                ==> distinct_semantics((#[trigger] meshes@[a].primitives@[p]).attributes@),
        decreases meshes@.len() - m,
    {
        let prims = &meshes[m].primitives;
        let mut p: usize = 0;
        while p < prims.len()
            invariant
                p <= prims@.len(),
                m < meshes@.len(),
                meshes@ == entries(gltf.meshes),
                prims@ == meshes@[m as int].primitives@,
                forall|q: int| 0 <= q < p ==> distinct_semantics((#[trigger] prims@[q]).attributes@),
            decreases prims@.len() - p,
        {
            let attrs = &prims[p].attributes;
            let mut j: usize = 1;
            while j < attrs.len()
                invariant
                    1 <= j,
                    j <= attrs@.len() || attrs@.len() == 0,
                    m < meshes@.len(),
                    p < prims@.len(),
                    meshes@ == entries(gltf.meshes),
                    prims@ == meshes@[m as int].primitives@,
                    attrs@ == prims@[p as int].attributes@,
                    forall|a: int, b: int| 0 <= a < b < j && b < attrs@.len() ==> (#[trigger] attrs@[a]).semantic@ != (#[trigger] attrs@[b]).semantic@,
                decreases attrs@.len() - j,
            {
                let mut k: usize = 0;
                while k < j
                    invariant
                        k <= j < attrs@.len(),
                        m < meshes@.len(),
                        p < prims@.len(),
                        meshes@ == entries(gltf.meshes),
                        prims@ == meshes@[m as int].primitives@,
                        attrs@ == prims@[p as int].attributes@,
                        forall|a: int| 0 <= a < k ==> (#[trigger] attrs@[a]).semantic@ != attrs@[j as int].semantic@,
                    decreases j - k,
                {
                    if attrs[k].semantic == attrs[j].semantic {
                        assert(!distinct_semantics(attrs@)) by {
                            assert(attrs@[k as int].semantic@ == attrs@[j as int].semantic@);
                        }
                        assert(!attributes_distinct(*gltf)) by {
                            assert(meshes@[m as int].primitives@[p as int].attributes@ == attrs@);
                        }
                        return false;
                    }
                    k = k + 1;
                }
                j = j + 1;
            }
            p = p + 1;
        }
        m = m + 1;
    }
    true
}

} // verus!
