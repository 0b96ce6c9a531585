//! Merging the primitives of a glTF mesh into one Unity mesh: one shared
//! vertex array and one sub-mesh per primitive, with indices pre-offset into
//! the shared array and an index format chosen from the total vertex count.
use vstd::prelude::*;
use crate::schema::{Accessor, BufferView, Mesh, MeshPrimitive};
use crate::primitive::{
    GltfPrimitiveData, PrimitiveDataView, prim_uvs, resolve_primitive, spec_prim_uvs,
    spec_primitive_data,
};
use crate::unity_core::{IndicesView, MeshView, SubMeshView, UnityIndices, UnityMesh, UnitySubMesh};
use crate::error::ConvertError;
use crate::text::{decimal, decimal_string};

verus! {

/// The largest vertex count whose indices fit `u16`.
pub const MAX_U16_VERTICES: usize = 65535;

/// The name of an entry: its own, or its index when it has none.
pub open spec fn name_or_index(name: Option<String>, idx: nat) -> Seq<char> {
    match name {
        Some(n) => n@,
        None => decimal(idx),
    }
}

/// Clone the entry's name, or spell out its index.
pub fn name_or_index_string(name: &Option<String>, idx: usize) -> (s: String)
    ensures
        s@ == name_or_index(*name, idx as nat),
{
    match name {
        Some(n) => n.clone(),
        None => decimal_string(idx),
    }
}

/// Append a copy of every element of `src` to `dst`.
pub fn append_copy<T: Copy>(dst: &mut Vec<T>, src: &Vec<T>)
    ensures
        final(dst)@ == old(dst)@ + src@,
{
    let ghost start = dst@;
    let mut i: usize = 0;
    while i < src.len()
        invariant
            i <= src@.len(),
            dst@ =~= start + src@.take(i as int),
        decreases src@.len() - i,
    {
        dst.push(src[i]);
        i = i + 1;
        assert(dst@ =~= start + src@.take(i as int));
    }
    assert(src@.take(src@.len() as int) =~= src@);
}

/// All positions of the first `d.len()` primitives, in order.
pub open spec fn concat_positions(d: Seq<PrimitiveDataView>) -> Seq<[u32; 3]>
    decreases d.len(),
{
    if d.len() == 0 { Seq::empty() } else { concat_positions(d.drop_last()) + d.last().positions }
}

/// All normals of the primitives, in order (each primitive is expected to have some).
pub open spec fn concat_normals(d: Seq<PrimitiveDataView>) -> Seq<[u32; 3]>
    decreases d.len(),
{
    if d.len() == 0 {
        Seq::empty()
    } else {
        concat_normals(d.drop_last()) + match d.last().normals { Some(n) => n, None => Seq::empty() }
    }
}

/// All tangents of the primitives, in order (each primitive is expected to have some).
pub open spec fn concat_tangents(d: Seq<PrimitiveDataView>) -> Seq<[u32; 4]>
    decreases d.len(),
{
    if d.len() == 0 {
        Seq::empty()
    } else {
        concat_tangents(d.drop_last()) + match d.last().tangents { Some(t) => t, None => Seq::empty() }
    }
}

/// `o` is present and holds `n` entries.
pub open spec fn has_len<T>(o: Option<Seq<T>>, n: nat) -> bool {
    match o {
        Some(s) => s.len() == n,
        None => false,
    }
}

/// Every primitive has one normal per vertex.
pub open spec fn has_all_normals(d: Seq<PrimitiveDataView>) -> bool {
    forall|p: int| 0 <= p < d.len() ==> has_len((#[trigger] d[p]).normals, d[p].positions.len())
}

/// Every primitive has one tangent per vertex.
pub open spec fn has_all_tangents(d: Seq<PrimitiveDataView>) -> bool {
    forall|p: int| 0 <= p < d.len() ==> has_len((#[trigger] d[p]).tangents, d[p].positions.len())
}

/// The index of the first vertex of primitive `p` in the shared array.
pub open spec fn vertex_base(d: Seq<PrimitiveDataView>, p: int) -> nat {
    concat_positions(d.take(p)).len()
}

/// Offset wound indices by `base` (wrapping at 2³²) and store them in the chosen format
/// (`u16` values keep the low 16 bits).
pub open spec fn offset_indices(wound: Seq<u32>, base: u32, use_u32: bool) -> IndicesView {
    if use_u32 {
        IndicesView::U32(wound.map_values(|i: u32| i.wrapping_add(base)))
    } else {
        IndicesView::U16(wound.map_values(|i: u32| i.wrapping_add(base) as u16))
    }
}

/// The sub-mesh of primitive `p`.
pub open spec fn spec_sub_mesh(prims: Seq<MeshPrimitive>, d: Seq<PrimitiveDataView>, p: int) -> SubMeshView {
    SubMeshView {
        indices: offset_indices(
            d[p].wound,
            vertex_base(d, p) as u32,
            concat_positions(d).len() > MAX_U16_VERTICES,
        ),
        material_index: prims[p].material,
    }
}

/// Texture-coordinate set `k` is present, with one entry per vertex, on every primitive.
pub open spec fn uv_set_usable(
    prims: Seq<MeshPrimitive>,
    d: Seq<PrimitiveDataView>,
    k: nat,
    accessors: Seq<Accessor>,
    buffer_views: Seq<BufferView>,
    buffers: Seq<Vec<u8>>,
) -> bool {
    forall|p: int| 0 <= p < prims.len() ==> has_len(#[trigger] spec_prim_uvs(prims[p], k, accessors, buffer_views, buffers), d[p].positions.len())
}

/// The number of texture-coordinate sets kept: the sets `0, 1, …` up to the first that
/// some primitive lacks, and at most as many as the first primitive has attributes (a
/// primitive cannot have more dense sets than attributes).
pub open spec fn uv_set_count_from(
    prims: Seq<MeshPrimitive>,
    d: Seq<PrimitiveDataView>,
    k: nat,
    accessors: Seq<Accessor>,
    buffer_views: Seq<BufferView>,
    buffers: Seq<Vec<u8>>,
) -> nat
    decreases (if prims.len() == 0 { 0 } else { prims[0].attributes@.len() }) - k,
{
    let bound: nat = if prims.len() == 0 { 0 } else { prims[0].attributes@.len() };
    if k >= bound || !uv_set_usable(prims, d, k, accessors, buffer_views, buffers) {
        k
    } else {
        uv_set_count_from(prims, d, k + 1, accessors, buffer_views, buffers)
    }
}

/// Texture coordinates of set `k` of the first `p` primitives, concatenated.
pub open spec fn concat_uvs(
    prims: Seq<MeshPrimitive>,
    k: nat,
    p: nat,
    accessors: Seq<Accessor>,
    buffer_views: Seq<BufferView>,
    buffers: Seq<Vec<u8>>,
) -> Seq<[u32; 2]>
    decreases p,
{
    if p == 0 {
        Seq::empty()
    } else {
        concat_uvs(prims, k, (p - 1) as nat, accessors, buffer_views, buffers) + match spec_prim_uvs(prims[p - 1], k, accessors, buffer_views, buffers) {
            Some(v) => v,
            None => Seq::empty(),
        }
    }
}

/// The Unity mesh built from a glTF mesh whose primitives resolved to `d`.
pub open spec fn spec_mesh_view(
    mesh: Mesh,
    idx: nat,
    d: Seq<PrimitiveDataView>,
    accessors: Seq<Accessor>,
    buffer_views: Seq<BufferView>,
    buffers: Seq<Vec<u8>>,
) -> MeshView {
    let prims = mesh.primitives@;
    MeshView {
        name: name_or_index(mesh.name, idx),
        vertices: concat_positions(d),
        normals: if has_all_normals(d) { concat_normals(d) } else { Seq::empty() },
        tangents: if has_all_tangents(d) { concat_tangents(d) } else { Seq::empty() },
        uvs: Seq::new(
            uv_set_count_from(prims, d, 0, accessors, buffer_views, buffers),
            |k: int| concat_uvs(prims, k as nat, prims.len(), accessors, buffer_views, buffers),
        ),
        sub_meshes: Seq::new(prims.len(), |p: int| spec_sub_mesh(prims, d, p)),
    }
}

/// The resolved data of a primitive that resolves.
pub open spec fn resolved(r: Result<PrimitiveDataView, ConvertError>) -> PrimitiveDataView {
    match r {
        Ok(v) => v,
        Err(_) => arbitrary(),
    }
}

/// Every primitive of the mesh resolves.
pub open spec fn mesh_resolves(mesh: Mesh, accessors: Seq<Accessor>, buffer_views: Seq<BufferView>, buffers: Seq<Vec<u8>>) -> bool {
    forall|p: int| 0 <= p < mesh.primitives@.len() ==> (#[trigger] spec_primitive_data(mesh.primitives@[p], accessors, buffer_views, buffers)) is Ok
}

/// The resolved data of every primitive of the mesh.
pub open spec fn mesh_data(mesh: Mesh, accessors: Seq<Accessor>, buffer_views: Seq<BufferView>, buffers: Seq<Vec<u8>>) -> Seq<PrimitiveDataView> {
    Seq::new(mesh.primitives@.len(), |p: int| resolved(spec_primitive_data(mesh.primitives@[p], accessors, buffer_views, buffers)))
}

/// Primitive `p` is the first of the mesh that fails, with `e`.
pub open spec fn first_failure(mesh: Mesh, p: int, e: ConvertError, accessors: Seq<Accessor>, buffer_views: Seq<BufferView>, buffers: Seq<Vec<u8>>) -> bool {
    &&& 0 <= p < mesh.primitives@.len()
    &&& forall|q: int| 0 <= q < p ==> (#[trigger] spec_primitive_data(mesh.primitives@[q], accessors, buffer_views, buffers)) is Ok
    &&& spec_primitive_data(mesh.primitives@[p], accessors, buffer_views, buffers) == Err::<PrimitiveDataView, ConvertError>(e)
}

} // verus!

verus! {

/// Offset the wound indices of one primitive into the shared vertex array.
pub fn offset_wound(wound: &Vec<u32>, base: u32, use_u32: bool) -> (r: UnityIndices)
    ensures
        r@ == offset_indices(wound@, base, use_u32),
{
    if use_u32 {
        let mut out: Vec<u32> = Vec::new();
        let mut i: usize = 0;
        while i < wound.len()
            invariant
                i <= wound@.len(),
                out@ =~= wound@.take(i as int).map_values(|x: u32| x.wrapping_add(base)),
            decreases wound@.len() - i,
        {
            out.push(wound[i].wrapping_add(base));
            i = i + 1;
            assert(out@ =~= wound@.take(i as int).map_values(|x: u32| x.wrapping_add(base)));
        }
        assert(wound@.take(wound@.len() as int) =~= wound@);
        UnityIndices::U32(out)
    } else {
        let mut out: Vec<u16> = Vec::new();
        let mut i: usize = 0;
        while i < wound.len()
            invariant
                i <= wound@.len(),
                out@ =~= wound@.take(i as int).map_values(|x: u32| x.wrapping_add(base) as u16),
            decreases wound@.len() - i,
        {
            out.push(wound[i].wrapping_add(base) as u16);
            i = i + 1;
            assert(out@ =~= wound@.take(i as int).map_values(|x: u32| x.wrapping_add(base) as u16));
        }
        assert(wound@.take(wound@.len() as int) =~= wound@);
        UnityIndices::U16(out)
    }
}

/// The primitives before `p`, extended by primitive `p`.
pub proof fn lemma_take_step<T>(d: Seq<T>, p: int)
    requires
        0 <= p < d.len(),
    ensures
        d.take(p + 1).drop_last() == d.take(p),
        d.take(p + 1).last() == d[p],
{
    assert(d.take(p + 1).drop_last() =~= d.take(p));
}

/// The views of the resolved primitive data.
pub open spec fn data_views(data: Seq<GltfPrimitiveData>) -> Seq<PrimitiveDataView> {
    data.map_values(|x: GltfPrimitiveData| x@)
}

/// Resolve every primitive of the mesh, stopping at the first failure.
pub fn resolve_mesh_primitives(
    mesh: &Mesh,
    accessors: &[Accessor],
    buffer_views: &[BufferView],
    buffers: &[Vec<u8>],
) -> (r: Result<Vec<GltfPrimitiveData>, ConvertError>)
    ensures
        r is Ok <==> mesh_resolves(*mesh, accessors@, buffer_views@, buffers@),
        r matches Ok(data) ==> data_views(data@) == mesh_data(*mesh, accessors@, buffer_views@, buffers@),
        r matches Err(e) ==> exists|p: int| first_failure(*mesh, p, e, accessors@, buffer_views@, buffers@),
{
    let mut data: Vec<GltfPrimitiveData> = Vec::new();
    let mut p: usize = 0;
    while p < mesh.primitives.len()
        invariant
            p <= mesh.primitives@.len(),
            data@.len() == p,
            forall|q: int| 0 <= q < p ==> (#[trigger] spec_primitive_data(mesh.primitives@[q], accessors@, buffer_views@, buffers@)) is Ok,
            forall|q: int| 0 <= q < p ==> (#[trigger] data@[q])@ == resolved(spec_primitive_data(mesh.primitives@[q], accessors@, buffer_views@, buffers@)),
        decreases mesh.primitives@.len() - p,
    {
        match resolve_primitive(&mesh.primitives[p], accessors, buffer_views, buffers) {
            Ok(d) => {
                data.push(d);
            },
            Err(e) => {
                assert(first_failure(*mesh, p as int, e, accessors@, buffer_views@, buffers@));
                return Err(e);
            },
        }
        p = p + 1;
    }
    assert(data_views(data@) =~= mesh_data(*mesh, accessors@, buffer_views@, buffers@));
    Ok(data)
}

} // verus!

verus! {

/// The vertex count of the first `p` primitives does not exceed that of the first `q`.
pub proof fn lemma_vertex_base_monotone(d: Seq<PrimitiveDataView>, p: int, q: int)
    requires
        0 <= p <= q <= d.len(),
    ensures
        vertex_base(d, p) <= vertex_base(d, q),
    decreases q - p,
{
    if p < q {
        lemma_vertex_base_monotone(d, p, q - 1);
        lemma_take_step(d, q - 1);
        assert(concat_positions(d.take(q)) == concat_positions(d.take(q - 1)) + d[q - 1].positions);
    }
}

/// Sub-mesh indices point into the merged vertex array: when a primitive's
/// index is below that primitive's own vertex count (and the merged array has
/// at most `u32::MAX` vertices), the sub-mesh holds it shifted by the vertex
/// count of the primitives before, below the merged vertex count, in either
/// index format.
pub proof fn law_sub_mesh_indices_in_range(prims: Seq<MeshPrimitive>, d: Seq<PrimitiveDataView>, p: int, t: int)
    requires
        0 <= p < d.len(),
        0 <= t < d[p].wound.len(),
        d[p].wound[t] < d[p].positions.len(),
        concat_positions(d).len() <= u32::MAX,
    ensures
        match spec_sub_mesh(prims, d, p).indices {
            IndicesView::U32(v) => v[t] == vertex_base(d, p) + d[p].wound[t] && v[t] < concat_positions(d).len(),
            IndicesView::U16(v) => v[t] == vertex_base(d, p) + d[p].wound[t] && v[t] < concat_positions(d).len(),
        },
{
    let total = concat_positions(d).len();
    let base = vertex_base(d, p);
    let w = d[p].wound[t];
    lemma_take_step(d, p);
    assert(concat_positions(d.take(p + 1)) == concat_positions(d.take(p)) + d[p].positions);
    lemma_vertex_base_monotone(d, p + 1, d.len() as int);
    assert(d.take(d.len() as int) =~= d);
    assert(base + d[p].positions.len() <= total);
    let b = base as u32;
    assert(b == base);
    let sum = w.wrapping_add(b);
    assert(sum == base + w);
    if total <= MAX_U16_VERTICES {
        assert(sum < 65535);
        assert((sum as u16) as u32 == sum) by (bit_vector)
            requires sum < 65535u32;
    }
}

/// Concatenate the positions of every primitive.
fn merge_vertices(data: &Vec<GltfPrimitiveData>) -> (r: Vec<[u32; 3]>)
    ensures
        r@ == concat_positions(data_views(data@)),
{
    let ghost dv = data_views(data@);
    let mut vertices: Vec<[u32; 3]> = Vec::new();
    let mut p: usize = 0;
    while p < data.len()
        invariant
            p <= data@.len(),
            dv == data_views(data@),
            vertices@ == concat_positions(dv.take(p as int)),
        decreases data@.len() - p,
    {
        append_copy(&mut vertices, &data[p].positions);
        proof {
            lemma_take_step(dv, p as int);
        }
        p = p + 1;
    }
    assert(dv.take(data@.len() as int) =~= dv);
    vertices
}

/// Build one sub-mesh per primitive, indices offset by the primitive's first vertex.
fn build_sub_meshes(prims: &Vec<MeshPrimitive>, data: &Vec<GltfPrimitiveData>, total: usize) -> (r: Vec<UnitySubMesh>)
    requires
        data@.len() == prims@.len(),
        total == concat_positions(data_views(data@)).len(),
    ensures
        r@.map_values(|s: UnitySubMesh| s@) == Seq::new(prims@.len(), |p: int| spec_sub_mesh(prims@, data_views(data@), p)),
{
    let ghost dv = data_views(data@);
    let use_u32 = total > MAX_U16_VERTICES;
    let mut sub_meshes: Vec<UnitySubMesh> = Vec::new();
    let mut base: usize = 0;
    let mut p: usize = 0;
    proof {
        assert(dv.len() == data@.len());
        assert(dv.take(dv.len() as int) =~= dv);
        assert(dv.take(0) =~= Seq::<PrimitiveDataView>::empty());
    }
    while p < data.len()
        invariant
            p <= data@.len(),
            data@.len() == prims@.len(),
            dv == data_views(data@),
            total == concat_positions(dv).len(),
            use_u32 == (total > MAX_U16_VERTICES),
            base == vertex_base(dv, p as int),
            sub_meshes@.len() == p,
            sub_meshes@.map_values(|s: UnitySubMesh| s@) =~= Seq::new(p as nat, |q: int| spec_sub_mesh(prims@, dv, q)),
        decreases data@.len() - p,
    {
        assert(dv[p as int] == data@[p as int]@);
        let indices = offset_wound(&data[p].wound, base as u32, use_u32);
        let ghost old_subs = sub_meshes@;
        let ghost old_view = sub_meshes@.map_values(|s: UnitySubMesh| s@);
        sub_meshes.push(UnitySubMesh { indices, material_index: prims[p].material });
        proof {
            lemma_take_step(dv, p as int);
            lemma_vertex_base_monotone(dv, p + 1, dv.len() as int);
            assert(dv.take(dv.len() as int) =~= dv);
            assert(concat_positions(dv.take(p + 1)) == concat_positions(dv.take(p as int)) + dv[p as int].positions);
        }
        base = base + data[p].positions.len();
        assert(sub_meshes@[p as int]@ == spec_sub_mesh(prims@, dv, p as int));
        assert(sub_meshes@ == old_subs.push(sub_meshes@[p as int]));
        let ghost new_view = sub_meshes@.map_values(|s: UnitySubMesh| s@);
        assert forall|q: int| 0 <= q <= p implies #[trigger] new_view[q] == spec_sub_mesh(prims@, dv, q) by {
            if q < p {
                assert(sub_meshes@[q] == old_subs[q]);
                assert(old_view[q] == spec_sub_mesh(prims@, dv, q));
            }
        }
        p = p + 1;
        assert(sub_meshes@.map_values(|s: UnitySubMesh| s@) =~= Seq::new(p as nat, |q: int| spec_sub_mesh(prims@, dv, q)));
    }
    sub_meshes
}

} // verus!

verus! {

/// Concatenate the normals when every primitive has one per vertex; otherwise none.
fn merge_normals(data: &Vec<GltfPrimitiveData>) -> (r: Vec<[u32; 3]>)
    ensures
        r@ == (if has_all_normals(data_views(data@)) { concat_normals(data_views(data@)) } else { Seq::empty() }),
{
    let ghost dv = data_views(data@);
    let mut all = true;
    let mut p: usize = 0;
    while p < data.len()
        invariant
            p <= data@.len(),
            dv == data_views(data@),
            all <==> forall|q: int| 0 <= q < p ==> has_len((#[trigger] dv[q]).normals, dv[q].positions.len()),
        decreases data@.len() - p,
    {
        assert(dv[p as int] == data@[p as int]@);
        let ok = match &data[p].normals {
            Some(n) => n.len() == data[p].positions.len(),
            None => false,
        };
        all = all && ok;
        p = p + 1;
    }
    let mut out: Vec<[u32; 3]> = Vec::new();
    if !all {
        return out;
    }
    let mut p: usize = 0;
    assert(dv.take(0) =~= Seq::<PrimitiveDataView>::empty());
    while p < data.len()
        invariant
            p <= data@.len(),
            dv == data_views(data@),
            has_all_normals(dv),
            out@ == concat_normals(dv.take(p as int)),
        decreases data@.len() - p,
    {
        assert(dv[p as int] == data@[p as int]@);
        match &data[p].normals {
            Some(n) => append_copy(&mut out, n),
            None => {},
        }
        proof {
            lemma_take_step(dv, p as int);
        }
        p = p + 1;
    }
    assert(dv.take(data@.len() as int) =~= dv);
    out
}

/// Concatenate the tangents when every primitive has one per vertex; otherwise none.
fn merge_tangents(data: &Vec<GltfPrimitiveData>) -> (r: Vec<[u32; 4]>)
    ensures
        r@ == (if has_all_tangents(data_views(data@)) { concat_tangents(data_views(data@)) } else { Seq::empty() }),
{
    let ghost dv = data_views(data@);
    let mut all = true;
    let mut p: usize = 0;
    while p < data.len()
        invariant
            p <= data@.len(),
            dv == data_views(data@),
            all <==> forall|q: int| 0 <= q < p ==> has_len((#[trigger] dv[q]).tangents, dv[q].positions.len()),
        decreases data@.len() - p,
    {
        assert(dv[p as int] == data@[p as int]@);
        let ok = match &data[p].tangents {
            Some(t) => t.len() == data[p].positions.len(),
            None => false,
        };
        all = all && ok;
        p = p + 1;
    }
    let mut out: Vec<[u32; 4]> = Vec::new();
    if !all {
        return out;
    }
    let mut p: usize = 0;
    assert(dv.take(0) =~= Seq::<PrimitiveDataView>::empty());
    while p < data.len()
        invariant
            p <= data@.len(),
            dv == data_views(data@),
            has_all_tangents(dv),
            out@ == concat_tangents(dv.take(p as int)),
        decreases data@.len() - p,
    {
        assert(dv[p as int] == data@[p as int]@);
        match &data[p].tangents {
            Some(t) => append_copy(&mut out, t),
            None => {},
        }
        proof {
            lemma_take_step(dv, p as int);
        }
        p = p + 1;
    }
    assert(dv.take(data@.len() as int) =~= dv);
    out
}

} // verus!

verus! {

/// Texture coordinates of set `k` across all primitives, when every primitive has
/// one per vertex.
fn gather_uv_set(
    prims: &Vec<MeshPrimitive>,
    data: &Vec<GltfPrimitiveData>,
    k: usize,
    accessors: &[Accessor],
    buffer_views: &[BufferView],
    buffers: &[Vec<u8>],
) -> (r: Option<Vec<[u32; 2]>>)
    requires
        data@.len() == prims@.len(),
    ensures
        r is Some <==> uv_set_usable(prims@, data_views(data@), k as nat, accessors@, buffer_views@, buffers@),
        r matches Some(v) ==> v@ == concat_uvs(prims@, k as nat, prims@.len(), accessors@, buffer_views@, buffers@),
{
    let ghost dv = data_views(data@);
    let mut out: Vec<[u32; 2]> = Vec::new();
    let mut p: usize = 0;
    while p < prims.len()
        invariant
            p <= prims@.len(),
            data@.len() == prims@.len(),
            dv == data_views(data@),
            forall|q: int| 0 <= q < p ==> has_len(#[trigger] spec_prim_uvs(prims@[q], k as nat, accessors@, buffer_views@, buffers@), dv[q].positions.len()),
            out@ == concat_uvs(prims@, k as nat, p as nat, accessors@, buffer_views@, buffers@),
        decreases prims@.len() - p,
    {
        assert(dv[p as int] == data@[p as int]@);
        match prim_uvs(&prims[p], k, accessors, buffer_views, buffers) {
            Some(v) => {
                if v.len() != data[p].positions.len() {
                    return None;
                }
                append_copy(&mut out, &v);
            },
            None => {
                return None;
            },
        }
        p = p + 1;
    }
    Some(out)
}

/// Every texture-coordinate set present, with one entry per vertex, on every
/// primitive, from set 0 up to the first that some primitive lacks.
fn merge_uv_sets(
    prims: &Vec<MeshPrimitive>,
    data: &Vec<GltfPrimitiveData>,
    accessors: &[Accessor],
    buffer_views: &[BufferView],
    buffers: &[Vec<u8>],
) -> (r: Vec<Vec<[u32; 2]>>)
    requires
        data@.len() == prims@.len(),
    ensures
        r@.map_values(|c: Vec<[u32; 2]>| c@) == Seq::new(
            uv_set_count_from(prims@, data_views(data@), 0, accessors@, buffer_views@, buffers@),
            |k: int| concat_uvs(prims@, k as nat, prims@.len(), accessors@, buffer_views@, buffers@),
        ),
{
    let ghost dv = data_views(data@);
    let bound: usize = if prims.len() == 0 { 0 } else { prims[0].attributes.len() };
    let mut sets: Vec<Vec<[u32; 2]>> = Vec::new();
    let mut k: usize = 0;
    let mut done = false;
    while k < bound && !done
        invariant
            data@.len() == prims@.len(),
            dv == data_views(data@),
            bound == (if prims@.len() == 0 { 0 } else { prims@[0].attributes@.len() }),
            k <= bound,
            sets@.len() == k,
            forall|c: int| 0 <= c < k ==> (#[trigger] sets@[c])@ == concat_uvs(prims@, c as nat, prims@.len(), accessors@, buffer_views@, buffers@),
            uv_set_count_from(prims@, dv, 0, accessors@, buffer_views@, buffers@) == (if done { k as nat } else { uv_set_count_from(prims@, dv, k as nat, accessors@, buffer_views@, buffers@) }),
        decreases bound - k, (if done { 0int } else { 1int }),
    {
        match gather_uv_set(prims, data, k, accessors, buffer_views, buffers) {
            Some(v) => {
                sets.push(v);
                k = k + 1;
            },
            None => {
                done = true;
            },
        }
    }
    let ghost view = sets@.map_values(|c: Vec<[u32; 2]>| c@);
    assert(view =~= Seq::new(
        uv_set_count_from(prims@, dv, 0, accessors@, buffer_views@, buffers@),
        |c: int| concat_uvs(prims@, c as nat, prims@.len(), accessors@, buffer_views@, buffers@),
    ));
    sets
}

/// Build the Unity mesh of a glTF mesh: resolve every primitive (stopping at the
/// first that fails), then merge them into one vertex array with one sub-mesh each.
pub fn build_unity_mesh(
    mesh: &Mesh,
    idx: usize,
    accessors: &[Accessor],
    buffer_views: &[BufferView],
    buffers: &[Vec<u8>],
) -> (r: Result<UnityMesh, ConvertError>)
    ensures
        r is Ok <==> mesh_resolves(*mesh, accessors@, buffer_views@, buffers@),
        r matches Ok(m) ==> m@ == spec_mesh_view(*mesh, idx as nat, mesh_data(*mesh, accessors@, buffer_views@, buffers@), accessors@, buffer_views@, buffers@),
        r matches Err(e) ==> exists|p: int| first_failure(*mesh, p, e, accessors@, buffer_views@, buffers@),
{
    let data = match resolve_mesh_primitives(mesh, accessors, buffer_views, buffers) {
        Ok(d) => d,
        Err(e) => return Err(e),
    };
    let ghost dv = data_views(data@);
    assert(data@.len() == mesh.primitives@.len()) by {
        assert(dv.len() == data@.len());
    }
    let vertices = merge_vertices(&data);
    let sub_meshes = build_sub_meshes(&mesh.primitives, &data, vertices.len());
    let normals = merge_normals(&data);
    let tangents = merge_tangents(&data);
    let uvs = merge_uv_sets(&mesh.primitives, &data, accessors, buffer_views, buffers);
    let name = name_or_index_string(&mesh.name, idx);
    let m = UnityMesh { name, vertices, normals, tangents, uvs, sub_meshes };
    assert(m@.sub_meshes =~= spec_mesh_view(*mesh, idx as nat, dv, accessors@, buffer_views@, buffers@).sub_meshes);
    assert(m@.uvs =~= spec_mesh_view(*mesh, idx as nat, dv, accessors@, buffer_views@, buffers@).uvs);
    Ok(m)
}

} // verus!
