//! Building the glTF document and its binary buffer from an [`ExportContext`]:
//! meshes become meshes with one primitive per sub-mesh, GameObjects become
//! nodes, and Unity's left-handed data is converted to glTF's right-handed
//! system.
use vstd::prelude::*;
use crate::bits::{neg, is_zero, is_negative, spec_neg, spec_is_zero, spec_is_negative, spec_f32_eq, F32_ZERO, F32_ONE};
use crate::schema::{
    Accessor, Asset, Attribute, Buffer, BufferView, Gltf, Mesh, MeshPrimitive, MeshPrimitiveMode,
    Node, Scene, entries,
};
use crate::export_context::{ExportContext, ExportContextView, MeshData, MeshDataView, NodeData, NodeDataView, opt_str};
use crate::pack::{MeshAccessors, MeshIds, mesh_ids, mesh_ids_at, pack_mesh_data, pack_meshes, packed_of};
use crate::primitive::{texcoord_name, texcoord_string};
use crate::mesh::lemma_take_step;

verus! {

// ---- meshes -------------------------------------------------------------------

/// The `(semantic, accessor)` pairs of a primitive's attributes, in order.
pub open spec fn attribute_entries(attrs: Seq<Attribute>) -> Seq<(Seq<char>, u32)> {
    attrs.map_values(|a: Attribute| (a.semantic@, a.accessor))
}

/// The attributes of every primitive of an exported mesh: `POSITION`, then
/// `NORMAL` when the mesh has normals, then `TEXCOORD_k` for each UV channel.
pub open spec fn expected_attributes(ids: MeshIds) -> Seq<(Seq<char>, u32)> {
    seq![("POSITION"@, ids.position)]
        + (match ids.normal { Some(n) => seq![("NORMAL"@, n)], None => Seq::empty() })
        + Seq::new(ids.uvs.len(), |k: int| (texcoord_name(k as nat), ids.uvs[k]))
}

/// The glTF mesh `out` is the export of `m` whose blocks have accessors `ids`:
/// same name, and one triangle primitive per sub-mesh, without a material.
pub open spec fn mesh_matches(out: Mesh, m: MeshDataView, ids: MeshIds) -> bool {
    &&& opt_str(out.name) == m.name
    &&& out.primitives@.len() == m.submeshes.len()
    &&& forall|j: int| 0 <= j < m.submeshes.len() ==> {
        let prim = #[trigger] out.primitives@[j];
        &&& attribute_entries(prim.attributes@) == expected_attributes(ids)
        &&& prim.indices == Some(ids.submeshes[j])
        &&& prim.material is None
        &&& prim.mode == MeshPrimitiveMode::Triangles
    }
}

fn named_attribute(name: &str, accessor: u32) -> (a: Attribute)
    ensures
        a.semantic@ == name@,
        a.accessor == accessor,
{
    Attribute { semantic: name.to_owned(), accessor }
}

/// The attribute list shared by the primitives of a packed mesh.
fn mesh_attributes(ids: &MeshAccessors) -> (r: Vec<Attribute>)
    ensures
        attribute_entries(r@) == expected_attributes(ids@),
{
    let mut attrs: Vec<Attribute> = Vec::new();
    attrs.push(named_attribute("POSITION", ids.position));
    match ids.normal {
        Some(n) => attrs.push(named_attribute("NORMAL", n)),
        None => {},
    }
    let ghost head = attribute_entries(attrs@);
    assert(head == seq![("POSITION"@, ids.position)]
        + (match ids.normal { Some(n) => seq![("NORMAL"@, n)], None => Seq::empty() })) by {
        assert(head =~= seq![("POSITION"@, ids.position)]
            + (match ids.normal { Some(n) => seq![("NORMAL"@, n)], None => Seq::<(Seq<char>, u32)>::empty() }));
    }
    let mut k: usize = 0;
    while k < ids.uvs.len()
        invariant
            k <= ids.uvs@.len(),
            attribute_entries(attrs@) =~= head + Seq::new(k as nat, |t: int| (texcoord_name(t as nat), ids.uvs@[t])),
        decreases ids.uvs@.len() - k,
    {
        let ghost before = attrs@;
        let a = Attribute { semantic: texcoord_string(k), accessor: ids.uvs[k] };
        assert(a.semantic@ == texcoord_name(k as nat) && a.accessor == ids.uvs@[k as int]);
        attrs.push(a);
        assert(attribute_entries(attrs@) =~= attribute_entries(before).push((texcoord_name(k as nat), ids.uvs@[k as int])));
        k = k + 1;
        assert(attribute_entries(attrs@) =~= head + Seq::new(k as nat, |t: int| (texcoord_name(t as nat), ids.uvs@[t])));
    }
    attrs
}

/// The glTF mesh of one exported mesh, given the accessors of its blocks.
pub fn build_mesh(m: &MeshData, ids: &MeshAccessors) -> (out: Mesh)
    requires
        ids@.submeshes.len() == m@.submeshes.len(),
    ensures
        mesh_matches(out, m@, ids@),
{
    let mut primitives: Vec<MeshPrimitive> = Vec::new();
    let mut j: usize = 0;
    while j < m.submeshes.len()
        invariant
            j <= m@.submeshes.len(),
            m@.submeshes.len() == m.submeshes@.len(),
            ids@.submeshes.len() == m@.submeshes.len(),
            primitives@.len() == j,
            forall|t: int| 0 <= t < j ==> {
                let prim = #[trigger] primitives@[t];
                &&& attribute_entries(prim.attributes@) == expected_attributes(ids@)
                &&& prim.indices == Some(ids@.submeshes[t])
                &&& prim.material is None
                &&& prim.mode == MeshPrimitiveMode::Triangles
            },
        decreases m@.submeshes.len() - j,
    {
        let attributes = mesh_attributes(ids);
        primitives.push(MeshPrimitive {
            attributes,
            indices: Some(ids.submesh_indices[j]),
            material: None,
            mode: MeshPrimitiveMode::Triangles,
        });
        j = j + 1;
    }
    let name = match &m.name {
        Some(n) => Some(n.clone()),
        None => None,
    };
    Mesh { primitives, name }
}

// ---- nodes --------------------------------------------------------------------

/// `x` with a negative zero replaced by a positive zero.
pub open spec fn canon(b: u32) -> u32 {
    if spec_is_zero(b) { F32_ZERO } else { b }
}

/// A quaternion with non-negative W (`q` and `-q` are the same rotation).
pub open spec fn canon_quat(q: [u32; 4]) -> [u32; 4] {
    if spec_is_negative(q[3]) {
        [spec_neg(q[0]), spec_neg(q[1]), spec_neg(q[2]), spec_neg(q[3])]
    } else {
        q
    }
}

/// The glTF translation of a Unity position: X negated, zeros canonical, and
/// omitted when it is zero.
pub open spec fn gltf_translation(t: Option<[u32; 3]>) -> Option<[u32; 3]> {
    match t {
        None => None,
        Some(t) => {
            let c = [canon(spec_neg(t[0])), canon(t[1]), canon(t[2])];
            if spec_f32_eq(c[0], F32_ZERO) && spec_f32_eq(c[1], F32_ZERO) && spec_f32_eq(c[2], F32_ZERO) {
                None
            } else {
                Some(c)
            }
        },
    }
}

/// The glTF rotation of a Unity rotation: X and W negated, zeros canonical, W
/// made non-negative, and omitted when it is the identity.
pub open spec fn gltf_rotation(r: Option<[u32; 4]>) -> Option<[u32; 4]> {
    match r {
        None => None,
        Some(r) => {
            let q = canon_quat([canon(spec_neg(r[0])), canon(r[1]), canon(r[2]), canon(spec_neg(r[3]))]);
            if spec_f32_eq(q[0], F32_ZERO) && spec_f32_eq(q[1], F32_ZERO) && spec_f32_eq(q[2], F32_ZERO)
                && spec_f32_eq(q[3], F32_ONE) {
                None
            } else {
                Some(q)
            }
        },
    }
}

/// The glTF scale: unchanged, and omitted when it is `[1, 1, 1]`.
pub open spec fn gltf_scale(s: Option<[u32; 3]>) -> Option<[u32; 3]> {
    match s {
        None => None,
        Some(s) => if spec_f32_eq(s[0], F32_ONE) && spec_f32_eq(s[1], F32_ONE) && spec_f32_eq(s[2], F32_ONE) {
            None
        } else {
            Some(s)
        },
    }
}

/// The indices, below `n`, of the nodes whose parent is node `idx`, in order.
pub open spec fn children_of(nodes: Seq<NodeDataView>, idx: int, n: nat) -> Seq<u32>
    decreases n,
{
    if n == 0 {
        Seq::empty()
    } else {
        let rest = children_of(nodes, idx, (n - 1) as nat);
        if nodes[n - 1].parent == Some(idx as u32) { rest.push((n - 1) as u32) } else { rest }
    }
}

/// The indices, below `n`, of the nodes without a parent, in order.
pub open spec fn roots_of(nodes: Seq<NodeDataView>, n: nat) -> Seq<u32>
    decreases n,
{
    if n == 0 {
        Seq::empty()
    } else {
        let rest = roots_of(nodes, (n - 1) as nat);
        if nodes[n - 1].parent is None { rest.push((n - 1) as u32) } else { rest }
    }
}

/// Every node lists as children exactly the nodes whose parent it is, in index
/// order; the scene lists exactly the nodes without a parent.
pub proof fn law_children_match_parents(nodes: Seq<NodeDataView>, idx: int, n: nat)
    requires
        n <= nodes.len(),
        nodes.len() <= 0x1_0000_0000,
    ensures
        forall|k: int| 0 <= k < children_of(nodes, idx, n).len() ==> children_of(nodes, idx, n)[k] < n,
        forall|c: int| 0 <= c < n ==> (children_of(nodes, idx, n).contains(c as u32) <==> nodes[c].parent == Some(idx as u32)),
        forall|k: int| 0 <= k < roots_of(nodes, n).len() ==> roots_of(nodes, n)[k] < n,
        forall|c: int| 0 <= c < n ==> (roots_of(nodes, n).contains(c as u32) <==> nodes[c].parent is None),
    decreases n,
{
    if n > 0 {
        law_children_match_parents(nodes, idx, (n - 1) as nat);
        let rest = children_of(nodes, idx, (n - 1) as nat);
        let roots = roots_of(nodes, (n - 1) as nat);
        assert forall|c: int| 0 <= c < n implies (children_of(nodes, idx, n).contains(c as u32) <==> nodes[c].parent == Some(idx as u32)) by {
            if c < n - 1 {
                if children_of(nodes, idx, n).contains(c as u32) && !rest.contains(c as u32) {
                    let k = choose|k: int| 0 <= k < children_of(nodes, idx, n).len() && children_of(nodes, idx, n)[k] == c as u32;
                    assert(k == rest.len());
                }
                if rest.contains(c as u32) {
                    let k = choose|k: int| 0 <= k < rest.len() && rest[k] == c as u32;
                    assert(children_of(nodes, idx, n)[k] == c as u32);
                }
            } else {
                if nodes[c].parent == Some(idx as u32) {
                    assert(children_of(nodes, idx, n)[rest.len() as int] == c as u32);
                } else if rest.contains(c as u32) {
                    let k = choose|k: int| 0 <= k < rest.len() && rest[k] == c as u32;
                    assert(rest[k] < n - 1);
                }
            }
        }
        assert forall|c: int| 0 <= c < n implies (roots_of(nodes, n).contains(c as u32) <==> nodes[c].parent is None) by {
            if c < n - 1 {
                if roots_of(nodes, n).contains(c as u32) && !roots.contains(c as u32) {
                    let k = choose|k: int| 0 <= k < roots_of(nodes, n).len() && roots_of(nodes, n)[k] == c as u32;
                    assert(k == roots.len());
                }
                if roots.contains(c as u32) {
                    let k = choose|k: int| 0 <= k < roots.len() && roots[k] == c as u32;
                    assert(roots_of(nodes, n)[k] == c as u32);
                }
            } else {
                if nodes[c].parent is None {
                    assert(roots_of(nodes, n)[roots.len() as int] == c as u32);
                } else if roots.contains(c as u32) {
                    let k = choose|k: int| 0 <= k < roots.len() && roots[k] == c as u32;
                    assert(roots[k] < n - 1);
                }
            }
        }
    }
}

/// An optional array that is written out only when it has entries: `None`
/// exactly when `s` is empty, else the entries of `s`.
pub open spec fn omitted_if_empty<T>(v: Option<Vec<T>>, s: Seq<T>) -> bool {
    match v {
        None => s.len() == 0,
        Some(v) => s.len() > 0 && v@ == s,
    }
}

/// The glTF node `out` is the export of node `idx` of `nodes`.
pub open spec fn node_matches(out: Node, nodes: Seq<NodeDataView>, idx: int) -> bool {
    let n = nodes[idx];
    &&& omitted_if_empty(out.children, children_of(nodes, idx, nodes.len()))
    &&& out.mesh == n.mesh_index
    &&& out.matrix is None
    &&& out.matrix_trs is None
    &&& out.translation == gltf_translation(n.translation)
    &&& out.rotation == gltf_rotation(n.rotation)
    &&& out.scale == gltf_scale(n.scale)
    &&& opt_str(out.name) == n.name
}

fn canon_exec(b: u32) -> (r: u32)
    ensures
        r == canon(b),
{
    if is_zero(b) { F32_ZERO } else { b }
}

fn translation_of(t: Option<[u32; 3]>) -> (r: Option<[u32; 3]>)
    ensures
        r == gltf_translation(t),
{
    match t {
        None => None,
        Some(t) => {
            let c = [canon_exec(neg(t[0])), canon_exec(t[1]), canon_exec(t[2])];
            if c[0] == F32_ZERO && c[1] == F32_ZERO && c[2] == F32_ZERO {
                None
            } else {
                Some(c)
            }
        },
    }
}

fn rotation_of(r: Option<[u32; 4]>) -> (out: Option<[u32; 4]>)
    ensures
        out == gltf_rotation(r),
{
    match r {
        None => None,
        Some(r) => {
            let c = [canon_exec(neg(r[0])), canon_exec(r[1]), canon_exec(r[2]), canon_exec(neg(r[3]))];
            let q = if is_negative(c[3]) { [neg(c[0]), neg(c[1]), neg(c[2]), neg(c[3])] } else { c };
            if is_zero(q[0]) && is_zero(q[1]) && is_zero(q[2]) && q[3] == F32_ONE {
                None
            } else {
                Some(q)
            }
        },
    }
}

fn scale_of(s: Option<[u32; 3]>) -> (r: Option<[u32; 3]>)
    ensures
        r == gltf_scale(s),
{
    match s {
        None => None,
        Some(s) => if s[0] == F32_ONE && s[1] == F32_ONE && s[2] == F32_ONE {
            None
        } else {
            Some(s)
        },
    }
}

/// The glTF node of node `idx`.
pub fn build_node(nodes: &Vec<NodeData>, idx: usize) -> (out: Node)
    requires
        idx < nodes@.len(),
    ensures
        node_matches(out, nodes@.map_values(|n: NodeData| n@), idx as int),
{
    let ghost nv = nodes@.map_values(|n: NodeData| n@);
    let mut children: Vec<u32> = Vec::new();
    let mut c: usize = 0;
    while c < nodes.len()
        invariant
            c <= nodes@.len(),
            nv == nodes@.map_values(|n: NodeData| n@),
            children@ == children_of(nv, idx as int, c as nat),
        decreases nodes@.len() - c,
    {
        if nodes[c].parent == Some(idx as u32) {
            children.push(c as u32);
        }
        c = c + 1;
    }
    let n = &nodes[idx];
    let name = match &n.name {
        Some(s) => Some(s.clone()),
        None => None,
    };
    Node {
        children: if children.len() == 0 { None } else { Some(children) },
        mesh: n.mesh_index,
        matrix: None,
        matrix_trs: None,
        translation: translation_of(n.translation),
        rotation: rotation_of(n.rotation),
        scale: scale_of(n.scale),
        name,
    }
}

// ---- the document ---------------------------------------------------------------

/// The characters of an optional string slice.
pub open spec fn opt_chars(s: Option<&str>) -> Option<Seq<char>> {
    match s {
        Some(s) => Some(s@),
        None => None,
    }
}

/// `g` and `binary` are the export of `ctx`, with the buffer at `bin_uri`
/// (`None` for a GLB's embedded buffer).
pub open spec fn spec_built(ctx: ExportContextView, bin_uri: Option<Seq<char>>, g: Gltf, binary: Seq<u8>) -> bool {
    let p = pack_meshes(ctx.meshes);
    &&& binary == p.binary
    &&& omitted_if_empty(g.accessors, p.accessors)
    &&& omitted_if_empty(g.buffer_views, p.views)
    &&& g.asset.version@ == "2.0"@
    &&& opt_str(g.asset.generator) == Some("gltforge"@)
    &&& g.asset.copyright is None
    &&& g.asset.min_version is None
    &&& g.scene == Some(0u32)
    &&& g.scenes matches Some(sc) && sc@.len() == 1
        && omitted_if_empty(sc@[0].nodes, roots_of(ctx.nodes, ctx.nodes.len()))
        && sc@[0].name is None
    &&& (g.meshes is Some <==> ctx.meshes.len() > 0)
    &&& entries(g.meshes).len() == ctx.meshes.len()
    &&& forall|i: int| 0 <= i < ctx.meshes.len()
        ==> mesh_matches(#[trigger] entries(g.meshes)[i], ctx.meshes[i], mesh_ids_at(ctx.meshes, i))
    &&& (g.nodes is Some <==> ctx.nodes.len() > 0)
    &&& entries(g.nodes).len() == ctx.nodes.len()
    &&& forall|i: int| 0 <= i < ctx.nodes.len() ==> node_matches(#[trigger] entries(g.nodes)[i], ctx.nodes, i)
    &&& g.images is None
    &&& g.materials is None
    &&& g.textures is None
    &&& g.animation_count == 0
    &&& g.skin_count == 0
    &&& if binary.len() == 0 {
        g.buffers is None
    } else {
        g.buffers matches Some(b) && b@.len() == 1 && b@[0].byte_length == binary.len() as u32
            && opt_str(b@[0].uri) == bin_uri
    }
}

fn root_nodes(nodes: &Vec<NodeData>) -> (r: Vec<u32>)
    ensures
        r@ == roots_of(nodes@.map_values(|n: NodeData| n@), nodes@.len()),
{
    let ghost nv = nodes@.map_values(|n: NodeData| n@);
    let mut roots: Vec<u32> = Vec::new();
    let mut c: usize = 0;
    while c < nodes.len()
        invariant
            c <= nodes@.len(),
            nv == nodes@.map_values(|n: NodeData| n@),
            roots@ == roots_of(nv, c as nat),
        decreases nodes@.len() - c,
    {
        if nodes[c].parent.is_none() {
            roots.push(c as u32);
        }
        c = c + 1;
    }
    roots
}

/// Build the glTF document and the binary buffer that its buffer views point
/// into. `bin_uri` is the buffer's URI (`None` when the buffer is a GLB's
/// embedded `BIN` chunk).
pub fn build_gltf(ctx: &ExportContext, bin_uri: Option<&str>) -> (r: (Gltf, Vec<u8>))
    ensures
        spec_built(ctx@, opt_chars(bin_uri), r.0, r.1@),
        crate::schema::attributes_distinct(r.0),
{
    let ghost ms = ctx@.meshes;
    let mut binary: Vec<u8> = Vec::new();
    let mut buffer_views: Vec<BufferView> = Vec::new();
    let mut accessors: Vec<Accessor> = Vec::new();
    let mut gltf_meshes: Vec<Mesh> = Vec::new();
    let mut i: usize = 0;
    assert(ms.take(0) =~= Seq::<MeshDataView>::empty());
    assert(packed_of(binary@, buffer_views@, accessors@) == pack_meshes(ms.take(0))) by { reveal(pack_meshes); }
    while i < ctx.meshes.len()
        invariant
            i <= ms.len(),
            ms == ctx@.meshes,
            ms.len() == ctx.meshes@.len(),
            packed_of(binary@, buffer_views@, accessors@) == pack_meshes(ms.take(i as int)),
            gltf_meshes@.len() == i,
            forall|t: int| 0 <= t < i ==> mesh_matches(#[trigger] gltf_meshes@[t], ms[t], mesh_ids_at(ms, t)),
        decreases ms.len() - i,
    {
        let m = &ctx.meshes[i];
        assert(m@ == ms[i as int]);
        let ids = pack_mesh_data(&mut binary, &mut buffer_views, &mut accessors, m);
        proof {
            lemma_take_step(ms, i as int);
            reveal(pack_meshes);
        }
        let mesh = build_mesh(m, &ids);
        gltf_meshes.push(mesh);
        i = i + 1;
    }
    assert(ms.take(ms.len() as int) =~= ms);

    let mut gltf_nodes: Vec<Node> = Vec::new();
    let mut k: usize = 0;
    while k < ctx.nodes.len()
        invariant
            k <= ctx.nodes@.len(),
            gltf_nodes@.len() == k,
            forall|t: int| 0 <= t < k ==> node_matches(#[trigger] gltf_nodes@[t], ctx@.nodes, t),
        decreases ctx.nodes@.len() - k,
    {
        let node = build_node(&ctx.nodes, k);
        gltf_nodes.push(node);
        k = k + 1;
    }

    let roots = root_nodes(&ctx.nodes);
    let bin_len = binary.len() as u32;
    let buffers = if binary.len() == 0 {
        None
    } else {
        let uri = match bin_uri {
            Some(s) => Some(s.to_owned()),
            None => None,
        };
        Some(vec![Buffer { byte_length: bin_len, uri }])
    };
    let gltf = Gltf {
        asset: Asset {
            version: "2.0".to_owned(),
            generator: Some("gltforge".to_owned()),
            copyright: None,
            min_version: None,
        },
        scene: Some(0),
        accessors: if accessors.len() == 0 { None } else { Some(accessors) },
        buffers,
        buffer_views: if buffer_views.len() == 0 { None } else { Some(buffer_views) },
        images: None,
        materials: None,
        meshes: if gltf_meshes.len() == 0 { None } else { Some(gltf_meshes) },
        nodes: if gltf_nodes.len() == 0 { None } else { Some(gltf_nodes) },
        scenes: Some(vec![Scene { nodes: if roots.len() == 0 { None } else { Some(roots) }, name: None }]),
        textures: None,
        animation_count: 0,
        skin_count: 0,
    };
    proof {
        crate::roundtrip::law_export_attributes_distinct(ctx@, opt_chars(bin_uri), gltf, binary@);
    }
    (gltf, binary)
}

} // verus!
