//! The Unity-shaped scene that the exporter accumulates before it builds the
//! glTF output: nodes with parents and local transforms, and meshes with
//! vertex data and sub-meshes. All data is in Unity's left-handed system.
use vstd::prelude::*;

verus! {

/// A single sub-mesh triangle list in Unity's left-handed winding order.
/// Indices are stored as `u32` regardless of the source format.
pub struct SubmeshData {
    pub indices: Vec<u32>,
}

/// A Unity-shaped mesh ready for export.
pub struct MeshData {
    /// Mesh name, or `None` to omit it from the glTF output.
    pub name: Option<String>,
    /// Vertex positions `[x, y, z]` (Unity space).
    pub positions: Vec<[u32; 3]>,
    /// Vertex normals, same length as `positions`; empty if the mesh has none.
    pub normals: Vec<[u32; 3]>,
    /// UV channels: `uvs[k]` holds `TEXCOORD_k` of every vertex, with V already
    /// flipped to glTF's top-left origin (the flip `v ↦ 1 - v` is floating-point
    /// arithmetic, made where the floats are received).
    pub uvs: Vec<Vec<[u32; 2]>>,
    /// One sub-mesh per glTF primitive.
    pub submeshes: Vec<SubmeshData>,
}

/// A Unity GameObject to be exported as a glTF node.
pub struct NodeData {
    /// Node name, or `None` to omit it.
    pub name: Option<String>,
    /// Index of the parent node, or `None` for a root node.
    pub parent: Option<u32>,
    /// Index into the context's mesh list, if this node has a mesh.
    pub mesh_index: Option<u32>,
    /// Local position `[x, y, z]` in Unity space, or `None` to omit it.
    pub translation: Option<[u32; 3]>,
    /// Local rotation `[x, y, z, w]` in Unity space, or `None` to omit it.
    pub rotation: Option<[u32; 4]>,
    /// Local scale, or `None` to omit it.
    pub scale: Option<[u32; 3]>,
}

/// Accumulates Unity-shaped scene data before the build step writes glTF.
pub struct ExportContext {
    pub nodes: Vec<NodeData>,
    pub meshes: Vec<MeshData>,
}

/// The mathematical content of a [`MeshData`].
pub struct MeshDataView {
    pub name: Option<Seq<char>>,
    pub positions: Seq<[u32; 3]>,
    pub normals: Seq<[u32; 3]>,
    pub uvs: Seq<Seq<[u32; 2]>>,
    pub submeshes: Seq<Seq<u32>>,
}

/// The mathematical content of a [`NodeData`].
pub struct NodeDataView {
    pub name: Option<Seq<char>>,
    pub parent: Option<u32>,
    pub mesh_index: Option<u32>,
    pub translation: Option<[u32; 3]>,
    pub rotation: Option<[u32; 4]>,
    pub scale: Option<[u32; 3]>,
}

/// The mathematical content of an [`ExportContext`].
pub struct ExportContextView {
    pub nodes: Seq<NodeDataView>,
    pub meshes: Seq<MeshDataView>,
}

/// The characters of an optional string.
pub open spec fn opt_str(s: Option<String>) -> Option<Seq<char>> {
    match s {
        Some(s) => Some(s@),
        None => None,
    }
}

impl View for MeshData {
    type V = MeshDataView;

    open spec fn view(&self) -> MeshDataView {
        MeshDataView {
            name: opt_str(self.name),
            positions: self.positions@,
            normals: self.normals@,
            uvs: self.uvs@.map_values(|c: Vec<[u32; 2]>| c@),
            submeshes: self.submeshes@.map_values(|s: SubmeshData| s.indices@),
        }
    }
}

impl View for NodeData {
    type V = NodeDataView;

    open spec fn view(&self) -> NodeDataView {
        NodeDataView {
            name: opt_str(self.name),
            parent: self.parent,
            mesh_index: self.mesh_index,
            translation: self.translation,
            rotation: self.rotation,
            scale: self.scale,
        }
    }
}

impl View for ExportContext {
    type V = ExportContextView;

    open spec fn view(&self) -> ExportContextView {
        ExportContextView {
            nodes: self.nodes@.map_values(|n: NodeData| n@),
            meshes: self.meshes@.map_values(|m: MeshData| m@),
        }
    }
}

impl Default for ExportContext {
    fn default() -> (r: Self)
        ensures
            r@.nodes.len() == 0,
            r@.meshes.len() == 0,
    {
        Self::new()
    }
}

impl ExportContext {
    /// An empty context.
    pub fn new() -> (r: Self)
        ensures
            r@.nodes.len() == 0,
            r@.meshes.len() == 0,
    {
        ExportContext { nodes: Vec::new(), meshes: Vec::new() }
    }

    /// Add a node; returns its index.
    pub fn add_node(
        &mut self,
        name: Option<String>,
        parent: Option<u32>,
        translation: Option<[u32; 3]>,
        rotation: Option<[u32; 4]>,
        scale: Option<[u32; 3]>,
    ) -> (idx: u32)
        ensures
            idx == old(self)@.nodes.len() as u32,
            final(self)@.nodes == old(self)@.nodes.push(NodeDataView {
                name: opt_str(name),
                parent,
                mesh_index: None,
                translation,
                rotation,
                scale,
            }),
            final(self)@.meshes == old(self)@.meshes,
    {
        let idx = self.nodes.len() as u32;
        self.nodes.push(NodeData { name, parent, mesh_index: None, translation, rotation, scale });
        assert(self@.nodes =~= old(self)@.nodes.push(NodeDataView {
            name: opt_str(name),
            parent,
            mesh_index: None,
            translation,
            rotation,
            scale,
        }));
        idx
    }

    /// Add an empty mesh; returns its index.
    pub fn add_mesh(&mut self, name: Option<String>) -> (idx: u32)
        ensures
            idx == old(self)@.meshes.len() as u32,
            final(self)@.meshes == old(self)@.meshes.push(MeshDataView {
                name: opt_str(name),
                positions: Seq::empty(),
                normals: Seq::empty(),
                uvs: Seq::empty(),
                submeshes: Seq::empty(),
            }),
            final(self)@.nodes == old(self)@.nodes,
    {
        let idx = self.meshes.len() as u32;
        let m = MeshData { name, positions: Vec::new(), normals: Vec::new(), uvs: Vec::new(), submeshes: Vec::new() };
        assert(m@.uvs =~= Seq::<Seq<[u32; 2]>>::empty());
        assert(m@.submeshes =~= Seq::<Seq<u32>>::empty());
        self.meshes.push(m);
        assert(self@.meshes =~= old(self)@.meshes.push(m@));
        idx
    }
}

} // verus!

verus! {

impl ExportContext {
    /// Set the vertex positions of mesh `mesh_idx`; nothing happens when there is no such mesh.
    pub fn set_positions(&mut self, mesh_idx: u32, positions: Vec<[u32; 3]>)
        ensures
            final(self)@.nodes == old(self)@.nodes,
            final(self)@.meshes == (if (mesh_idx as nat) < old(self)@.meshes.len() {
                old(self)@.meshes.update(mesh_idx as int, MeshDataView { positions: positions@, ..old(self)@.meshes[mesh_idx as int] })
            } else {
                old(self)@.meshes
            }),
    {
        if (mesh_idx as usize) < self.meshes.len() {
            self.meshes[mesh_idx as usize].positions = positions;
            assert(self@.meshes =~= old(self)@.meshes.update(mesh_idx as int, MeshDataView { positions: positions@, ..old(self)@.meshes[mesh_idx as int] }));
        }
    }
}

} // verus!

verus! {

/// The UV channels after `set_uvs` on channel `ch`: grown with empty channels
/// up to `ch` where needed, then channel `ch` replaced.
pub open spec fn spec_set_uvs(old_uvs: Seq<Seq<[u32; 2]>>, ch: nat, uvs: Seq<[u32; 2]>) -> Seq<Seq<[u32; 2]>> {
    let grown = if old_uvs.len() <= ch {
        old_uvs + Seq::new((ch + 1 - old_uvs.len()) as nat, |i: int| Seq::<[u32; 2]>::empty())
    } else {
        old_uvs
    };
    grown.update(ch as int, uvs)
}

impl ExportContext {
    /// Set the vertex normals of mesh `mesh_idx`; nothing happens when there is no such mesh.
    pub fn set_normals(&mut self, mesh_idx: u32, normals: Vec<[u32; 3]>)
        ensures
            final(self)@.nodes == old(self)@.nodes,
            final(self)@.meshes == (if (mesh_idx as nat) < old(self)@.meshes.len() {
                old(self)@.meshes.update(mesh_idx as int, MeshDataView { normals: normals@, ..old(self)@.meshes[mesh_idx as int] })
            } else {
                old(self)@.meshes
            }),
    {
        if (mesh_idx as usize) < self.meshes.len() {
            self.meshes[mesh_idx as usize].normals = normals;
            assert(self@.meshes =~= old(self)@.meshes.update(mesh_idx as int, MeshDataView { normals: normals@, ..old(self)@.meshes[mesh_idx as int] }));
        }
    }

    /// Set UV channel `channel` of mesh `mesh_idx`, adding empty channels below it
    /// where the mesh has fewer; nothing happens when there is no such mesh.
    pub fn set_uvs(&mut self, mesh_idx: u32, channel: u32, uvs: Vec<[u32; 2]>)
        ensures
            final(self)@.nodes == old(self)@.nodes,
            final(self)@.meshes == (if (mesh_idx as nat) < old(self)@.meshes.len() {
                old(self)@.meshes.update(mesh_idx as int, MeshDataView {
                    uvs: spec_set_uvs(old(self)@.meshes[mesh_idx as int].uvs, channel as nat, uvs@),
                    ..old(self)@.meshes[mesh_idx as int]
                })
            } else {
                old(self)@.meshes
            }),
    {
        if (mesh_idx as usize) < self.meshes.len() {
            let mi = mesh_idx as usize;
            let ch = channel as usize;
            let mut channels: Vec<Vec<[u32; 2]>> = Vec::new();
            std::mem::swap(&mut channels, &mut self.meshes[mi].uvs);
            let ghost old_channels = channels@.map_values(|c: Vec<[u32; 2]>| c@);
            assert(old_channels == old(self)@.meshes[mi as int].uvs);
            while channels.len() <= ch
                invariant
                    old_channels.len() <= channels@.len() <= (if old_channels.len() <= ch { ch + 1 } else { old_channels.len() as int }),
                    forall|i: int| 0 <= i < old_channels.len() ==> (#[trigger] channels@[i])@ == old_channels[i],
                    forall|i: int| old_channels.len() <= i < channels@.len() ==> (#[trigger] channels@[i])@ == Seq::<[u32; 2]>::empty(),
                decreases ch + 1 - channels@.len(),
            {
                channels.push(Vec::new());
            }
            channels.set(ch, uvs);
            self.meshes[mi].uvs = channels;
            assert(self@.meshes[mi as int].uvs =~= spec_set_uvs(old_channels, channel as nat, uvs@));
            assert(self@.meshes =~= old(self)@.meshes.update(mesh_idx as int, MeshDataView {
                uvs: spec_set_uvs(old(self)@.meshes[mesh_idx as int].uvs, channel as nat, uvs@),
                ..old(self)@.meshes[mesh_idx as int]
            }));
        }
    }

    /// Append a sub-mesh to mesh `mesh_idx`; nothing happens when there is no such mesh.
    pub fn add_submesh(&mut self, mesh_idx: u32, indices: Vec<u32>)
        ensures
            final(self)@.nodes == old(self)@.nodes,
            final(self)@.meshes == (if (mesh_idx as nat) < old(self)@.meshes.len() {
                old(self)@.meshes.update(mesh_idx as int, MeshDataView {
                    submeshes: old(self)@.meshes[mesh_idx as int].submeshes.push(indices@),
                    ..old(self)@.meshes[mesh_idx as int]
                })
            } else {
                old(self)@.meshes
            }),
    {
        if (mesh_idx as usize) < self.meshes.len() {
            let mi = mesh_idx as usize;
            self.meshes[mi].submeshes.push(SubmeshData { indices });
            assert(self@.meshes[mi as int].submeshes =~= old(self)@.meshes[mi as int].submeshes.push(indices@));
            assert(self@.meshes =~= old(self)@.meshes.update(mesh_idx as int, MeshDataView {
                submeshes: old(self)@.meshes[mesh_idx as int].submeshes.push(indices@),
                ..old(self)@.meshes[mesh_idx as int]
            }));
        }
    }

    /// Attach mesh `mesh_idx` to node `node_idx`; nothing happens when there is no such node.
    pub fn set_node_mesh(&mut self, node_idx: u32, mesh_idx: u32)
        ensures
            final(self)@.meshes == old(self)@.meshes,
            final(self)@.nodes == (if (node_idx as nat) < old(self)@.nodes.len() {
                old(self)@.nodes.update(node_idx as int, NodeDataView { mesh_index: Some(mesh_idx), ..old(self)@.nodes[node_idx as int] })
            } else {
                old(self)@.nodes
            }),
    {
        if (node_idx as usize) < self.nodes.len() {
            self.nodes[node_idx as usize].mesh_index = Some(mesh_idx);
            assert(self@.nodes =~= old(self)@.nodes.update(node_idx as int, NodeDataView { mesh_index: Some(mesh_idx), ..old(self)@.nodes[node_idx as int] }));
        }
    }
}

} // verus!
