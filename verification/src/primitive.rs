//! Resolving one glTF primitive: its positions, normals and tangents in
//! Unity's left-handed system, and its triangle indices with winding reversed.
use vstd::prelude::*;
use crate::schema::{
    Accessor, AccessorComponentType, AccessorType, Attribute, BufferView, MeshPrimitive,
    MeshPrimitiveMode,
};
use crate::resolve::{resolve_accessor, spec_resolve_accessor};
use crate::decode::{
    read_u16, read_u32, spec_vec2, spec_vec3_flip_x, spec_vec4_flip_xw, u16_at, u32_at, vec2,
    vec3_flip_x, vec4_flip_xw,
};
use crate::error::ConvertError;
use crate::text::{decimal, push_decimal};

verus! {

/// The accessor of the first attribute named `name`.
pub open spec fn find_attribute(attrs: Seq<Attribute>, name: Seq<char>) -> Option<u32>
    decreases attrs.len(),
{
    if attrs.len() == 0 {
        None
    } else if attrs[0].semantic@ == name {
        Some(attrs[0].accessor)
    } else {
        find_attribute(attrs.drop_first(), name)
    }
}

/// Look up the accessor of the attribute named `name`.
pub fn get_attribute(attrs: &Vec<Attribute>, name: &String) -> (r: Option<u32>)
    ensures
        r == find_attribute(attrs@, name@),
{
    let mut i: usize = 0;
    assert(attrs@.skip(0) =~= attrs@);
    while i < attrs.len()
        invariant
            i <= attrs@.len(),
            find_attribute(attrs@, name@) == find_attribute(attrs@.skip(i as int), name@),
        decreases attrs@.len() - i,
    {
        assert(attrs@.skip(i as int).drop_first() =~= attrs@.skip(i + 1));
        if attrs[i].semantic == *name {
            return Some(attrs[i].accessor);
        }
        i = i + 1;
    }
    None
}

/// Index values decoded from the bytes of an index accessor.
pub open spec fn spec_decode_indices(b: Seq<u8>, ct: AccessorComponentType) -> Result<Seq<u32>, ConvertError> {
    match ct {
        AccessorComponentType::UnsignedByte => Ok(Seq::new(b.len(), |i: int| b[i] as u32)),
        AccessorComponentType::UnsignedShort => Ok(Seq::new(b.len() / 2, |i: int| u16_at(b, 2 * i) as u32)),
        AccessorComponentType::UnsignedInt => Ok(Seq::new(b.len() / 4, |i: int| u32_at(b, 4 * i))),
        _ => Err(ConvertError::UnsupportedIndexComponentType { component_type: ct }),
    }
}

/// Decode raw index bytes into a flat `Vec<u32>` regardless of source format.
pub fn decode_indices(bytes: &[u8], component_type: AccessorComponentType) -> (r: Result<Vec<u32>, ConvertError>)
    ensures
        match spec_decode_indices(bytes@, component_type) {
            Ok(v) => r matches Ok(w) && w@ == v,
            Err(e) => r == Err::<Vec<u32>, ConvertError>(e),
        },
{
    let mut out: Vec<u32> = Vec::new();
    match component_type {
        AccessorComponentType::UnsignedByte => {
            let mut i: usize = 0;
            while i < bytes.len()
                invariant
                    i <= bytes@.len(),
                    out@ =~= Seq::new(bytes@.len(), |j: int| bytes@[j] as u32).take(i as int),
                decreases bytes@.len() - i,
            {
                out.push(bytes[i] as u32);
                i = i + 1;
            }
            Ok(out)
        },
        AccessorComponentType::UnsignedShort => {
            let n = bytes.len() / 2;
            let mut i: usize = 0;
            while i < n
                invariant
                    n == bytes@.len() / 2,
                    bytes@.len() <= usize::MAX,
                    i <= n,
                    out@ =~= Seq::new(bytes@.len() / 2, |j: int| u16_at(bytes@, 2 * j) as u32).take(i as int),
                decreases n - i,
            {
                assert(2 * i + 2 <= bytes@.len()) by (nonlinear_arith)
                    requires i < n, n == bytes@.len() / 2;
                out.push(read_u16(bytes, 2 * i) as u32);
                i = i + 1;
            }
            Ok(out)
        },
        AccessorComponentType::UnsignedInt => {
            let n = bytes.len() / 4;
            let mut i: usize = 0;
            while i < n
                invariant
                    n == bytes@.len() / 4,
                    bytes@.len() <= usize::MAX,
                    i <= n,
                    out@ =~= Seq::new(bytes@.len() / 4, |j: int| u32_at(bytes@, 4 * j)).take(i as int),
                decreases n - i,
            {
                assert(4 * i + 4 <= bytes@.len()) by (nonlinear_arith)
                    requires i < n, n == bytes@.len() / 4;
                out.push(read_u32(bytes, 4 * i));
                i = i + 1;
            }
            Ok(out)
        },
        other => Err(ConvertError::UnsupportedIndexComponentType { component_type: other }),
    }
}

/// The position in a triangle that Unity's winding takes corner `k` from:
/// `[a, b, c]` becomes `[a, c, b]`.
pub open spec fn wind_corner(k: int) -> int {
    if k == 0 { 0 } else if k == 1 { 2 } else { 1 }
}

/// Reverse the winding of every complete triangle; a trailing partial
/// triangle is dropped.
pub open spec fn spec_wind(raw: Seq<u32>) -> Seq<u32> {
    Seq::new((raw.len() / 3 * 3) as nat, |i: int| raw[3 * (i / 3) + wind_corner(i % 3)])
}

/// Reverse the winding order of each triangle (glTF right-handed → Unity left-handed).
pub fn wind(raw: &Vec<u32>) -> (r: Vec<u32>)
    ensures
        r@ == spec_wind(raw@),
{
    let n = raw.len() / 3;
    let mut out: Vec<u32> = Vec::new();
    let mut t: usize = 0;
    while t < n
        invariant
            n == raw@.len() / 3,
            raw@.len() <= usize::MAX,
            t <= n,
            out@ =~= spec_wind(raw@).take(3 * t as int),
        decreases n - t,
    {
        let ghost s = spec_wind(raw@);
        assert(3 * t + 3 <= raw@.len()) by (nonlinear_arith)
            requires t < n, n == raw@.len() / 3;
        out.push(raw[3 * t]);
        out.push(raw[3 * t + 2]);
        out.push(raw[3 * t + 1]);
        proof {
            assert((3 * t + 0) / 3 == t && (3 * t + 0) % 3 == 0);
            assert((3 * t + 1) / 3 == t && (3 * t + 1) % 3 == 1);
            assert((3 * t + 2) / 3 == t && (3 * t + 2) % 3 == 2);
            assert(s.len() >= 3 * t + 3);
            assert(out@ =~= s.take(3 * t + 3));
        }
        t = t + 1;
    }
    out
}

/// The bytes of the attribute `name`, when it names an accessor in range that
/// holds `FLOAT` elements of type `ty` and resolves; `None` otherwise.
pub open spec fn spec_float_attribute(
    prim: MeshPrimitive,
    name: Seq<char>,
    ty: AccessorType,
    accessors: Seq<Accessor>,
    buffer_views: Seq<BufferView>,
    buffers: Seq<Vec<u8>>,
) -> Option<Seq<u8>> {
    match find_attribute(prim.attributes@, name) {
        None => None,
        Some(id) => if id >= accessors.len() {
            None
        } else {
            let acc = accessors[id as int];
            if acc.accessor_type != ty || acc.component_type != AccessorComponentType::Float {
                None
            } else {
                match spec_resolve_accessor(acc, buffer_views, buffers) {
                    Ok(b) => Some(b),
                    Err(_) => None,
                }
            }
        },
    }
}

/// Resolve the attribute `name` as `FLOAT` elements of type `ty`.
pub fn float_attribute<'a>(
    prim: &MeshPrimitive,
    name: &String,
    ty: AccessorType,
    accessors: &[Accessor],
    buffer_views: &[BufferView],
    buffers: &'a [Vec<u8>],
) -> (r: Option<&'a [u8]>)
    ensures
        match spec_float_attribute(*prim, name@, ty, accessors@, buffer_views@, buffers@) {
            Some(b) => r matches Some(s) && s@ == b,
            None => r is None,
        },
{
    let id = match get_attribute(&prim.attributes, name) {
        Some(id) => id,
        None => return None,
    };
    if id as usize >= accessors.len() {
        return None;
    }
    let acc = &accessors[id as usize];
    if acc.accessor_type != ty || acc.component_type != AccessorComponentType::Float {
        return None;
    }
    match resolve_accessor(acc, buffer_views, buffers) {
        Ok(b) => Some(b),
        Err(_) => None,
    }
}

/// The name of the texture-coordinate attribute of set `k`: `TEXCOORD_k`.
pub open spec fn texcoord_name(k: nat) -> Seq<char> {
    "TEXCOORD_"@ + decimal(k)
}

/// Build `TEXCOORD_k`.
pub fn texcoord_string(k: usize) -> (s: String)
    ensures
        s@ == texcoord_name(k as nat),
{
    let mut s = "TEXCOORD_".to_owned();
    push_decimal(&mut s, k);
    s
}

/// Normals of a primitive (X negated), when it has a usable `NORMAL` attribute.
pub open spec fn spec_prim_normals(prim: MeshPrimitive, accessors: Seq<Accessor>, buffer_views: Seq<BufferView>, buffers: Seq<Vec<u8>>) -> Option<Seq<[u32; 3]>> {
    match spec_float_attribute(prim, "NORMAL"@, AccessorType::Vec3, accessors, buffer_views, buffers) {
        Some(b) => Some(spec_vec3_flip_x(b)),
        None => None,
    }
}

/// Tangents of a primitive (X and W negated), when it has a usable `TANGENT` attribute.
pub open spec fn spec_prim_tangents(prim: MeshPrimitive, accessors: Seq<Accessor>, buffer_views: Seq<BufferView>, buffers: Seq<Vec<u8>>) -> Option<Seq<[u32; 4]>> {
    match spec_float_attribute(prim, "TANGENT"@, AccessorType::Vec4, accessors, buffer_views, buffers) {
        Some(b) => Some(spec_vec4_flip_xw(b)),
        None => None,
    }
}

/// Texture coordinates of set `k` of a primitive, when it has a usable `TEXCOORD_k`.
pub open spec fn spec_prim_uvs(prim: MeshPrimitive, k: nat, accessors: Seq<Accessor>, buffer_views: Seq<BufferView>, buffers: Seq<Vec<u8>>) -> Option<Seq<[u32; 2]>> {
    match spec_float_attribute(prim, texcoord_name(k), AccessorType::Vec2, accessors, buffer_views, buffers) {
        Some(b) => Some(spec_vec2(b)),
        None => None,
    }
}

/// Read texture coordinates of set `k`.
pub fn prim_uvs(prim: &MeshPrimitive, k: usize, accessors: &[Accessor], buffer_views: &[BufferView], buffers: &[Vec<u8>]) -> (r: Option<Vec<[u32; 2]>>)
    ensures
        match spec_prim_uvs(*prim, k as nat, accessors@, buffer_views@, buffers@) {
            Some(v) => r matches Some(w) && w@ == v,
            None => r is None,
        },
{
    let name = texcoord_string(k);
    match float_attribute(prim, &name, AccessorType::Vec2, accessors, buffer_views, buffers) {
        Some(b) => Some(vec2(b)),
        None => None,
    }
}

/// What [`resolve_primitive`] requires and returns for the positions and the
/// wound indices: the first failing check, in the order the checks are made.
pub open spec fn spec_resolve_primitive(
    prim: MeshPrimitive,
    accessors: Seq<Accessor>,
    buffer_views: Seq<BufferView>,
    buffers: Seq<Vec<u8>>,
) -> Result<(Seq<[u32; 3]>, Seq<u32>), ConvertError> {
    if prim.mode != MeshPrimitiveMode::Triangles {
        Err(ConvertError::UnsupportedPrimitiveMode { mode: prim.mode })
    } else {
        match find_attribute(prim.attributes@, "POSITION"@) {
            None => Err(ConvertError::NoPositionAttribute),
            Some(pos_id) => if pos_id >= accessors.len() {
                Err(ConvertError::PositionAccessorOutOfRange)
            } else {
                let pos_acc = accessors[pos_id as int];
                if pos_acc.accessor_type != AccessorType::Vec3 || pos_acc.component_type != AccessorComponentType::Float {
                    Err(ConvertError::InvalidPositionType)
                } else {
                    match spec_resolve_accessor(pos_acc, buffer_views, buffers) {
                        Err(e) => Err(ConvertError::Resolve { source: e }),
                        Ok(pos_bytes) => match prim.indices {
                            None => Err(ConvertError::NoIndices),
                            Some(idx_id) => if idx_id >= accessors.len() {
                                Err(ConvertError::IndexAccessorOutOfRange)
                            } else {
                                let idx_acc = accessors[idx_id as int];
                                match spec_resolve_accessor(idx_acc, buffer_views, buffers) {
                                    Err(e) => Err(ConvertError::Resolve { source: e }),
                                    Ok(idx_bytes) => match spec_decode_indices(idx_bytes, idx_acc.component_type) {
                                        Err(e) => Err(e),
                                        Ok(raw) => Ok((spec_vec3_flip_x(pos_bytes), spec_wind(raw))),
                                    },
                                }
                            },
                        },
                    }
                }
            },
        }
    }
}

/// Resolved data for a single glTF primitive, in Unity's left-handed system,
/// before the primitives of a mesh are merged.
pub struct GltfPrimitiveData {
    pub positions: Vec<[u32; 3]>,
    pub normals: Option<Vec<[u32; 3]>>,
    pub tangents: Option<Vec<[u32; 4]>>,
    pub wound: Vec<u32>,
}

/// The mathematical content of a [`GltfPrimitiveData`].
pub struct PrimitiveDataView {
    pub positions: Seq<[u32; 3]>,
    pub normals: Option<Seq<[u32; 3]>>,
    pub tangents: Option<Seq<[u32; 4]>>,
    pub wound: Seq<u32>,
}

impl View for GltfPrimitiveData {
    type V = PrimitiveDataView;

    open spec fn view(&self) -> PrimitiveDataView {
        PrimitiveDataView {
            positions: self.positions@,
            normals: match self.normals { Some(n) => Some(n@), None => None },
            tangents: match self.tangents { Some(t) => Some(t@), None => None },
            wound: self.wound@,
        }
    }
}

/// The full resolved data of a primitive.
pub open spec fn spec_primitive_data(
    prim: MeshPrimitive,
    accessors: Seq<Accessor>,
    buffer_views: Seq<BufferView>,
    buffers: Seq<Vec<u8>>,
) -> Result<PrimitiveDataView, ConvertError> {
    match spec_resolve_primitive(prim, accessors, buffer_views, buffers) {
        Err(e) => Err(e),
        Ok((positions, wound)) => Ok(PrimitiveDataView {
            positions,
            normals: spec_prim_normals(prim, accessors, buffer_views, buffers),
            tangents: spec_prim_tangents(prim, accessors, buffer_views, buffers),
            wound,
        }),
    }
}

/// Resolve a single glTF primitive into left-handed positions (and normals and
/// tangents where present) and wound indices.
pub fn resolve_primitive(
    prim: &MeshPrimitive,
    accessors: &[Accessor],
    buffer_views: &[BufferView],
    buffers: &[Vec<u8>],
) -> (r: Result<GltfPrimitiveData, ConvertError>)
    ensures
        match spec_primitive_data(*prim, accessors@, buffer_views@, buffers@) {
            Ok(d) => r matches Ok(data) && data@ == d,
            Err(e) => r matches Err(f) && f == e,
        },
{
    if prim.mode != MeshPrimitiveMode::Triangles {
        return Err(ConvertError::UnsupportedPrimitiveMode { mode: prim.mode });
    }
    let pos_name = "POSITION".to_owned();
    let pos_id = match get_attribute(&prim.attributes, &pos_name) {
        Some(id) => id,
        None => return Err(ConvertError::NoPositionAttribute),
    };
    if pos_id as usize >= accessors.len() {
        return Err(ConvertError::PositionAccessorOutOfRange);
    }
    let pos_acc = &accessors[pos_id as usize];
    if pos_acc.accessor_type != AccessorType::Vec3 || pos_acc.component_type != AccessorComponentType::Float {
        return Err(ConvertError::InvalidPositionType);
    }
    let pos_bytes = match resolve_accessor(pos_acc, buffer_views, buffers) {
        Ok(b) => b,
        Err(e) => return Err(ConvertError::Resolve { source: e }),
    };
    let positions = vec3_flip_x(pos_bytes);

    let idx_id = match prim.indices {
        Some(i) => i,
        None => return Err(ConvertError::NoIndices),
    };
    if idx_id as usize >= accessors.len() {
        return Err(ConvertError::IndexAccessorOutOfRange);
    }
    let idx_acc = &accessors[idx_id as usize];
    let idx_bytes = match resolve_accessor(idx_acc, buffer_views, buffers) {
        Ok(b) => b,
        Err(e) => return Err(ConvertError::Resolve { source: e }),
    };
    let raw = match decode_indices(idx_bytes, idx_acc.component_type) {
        Ok(raw) => raw,
        Err(e) => return Err(e),
    };
    let wound = wind(&raw);

    let normal_name = "NORMAL".to_owned();
    let normals = match float_attribute(prim, &normal_name, AccessorType::Vec3, accessors, buffer_views, buffers) {
        Some(b) => Some(vec3_flip_x(b)),
        None => None,
    };
    let tangent_name = "TANGENT".to_owned();
    let tangents = match float_attribute(prim, &tangent_name, AccessorType::Vec4, accessors, buffer_views, buffers) {
        Some(b) => Some(vec4_flip_xw(b)),
        None => None,
    };
    Ok(GltfPrimitiveData { positions, normals, tangents, wound })
}

} // verus!
