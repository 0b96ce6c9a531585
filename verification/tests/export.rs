use gltforge_unity::assemble::build_gltf;
use gltforge_unity::export_context::ExportContext;
use gltforge_unity::glb::{glb_bytes, is_glb, parse_glb, GlbError};
use gltforge_unity::query::{
    gltforge_game_object_transform, gltforge_mesh_index_format, gltforge_mesh_normals,
    gltforge_mesh_positions, gltforge_mesh_submesh_indices_u16, gltforge_mesh_submesh_indices_u32,
    gltforge_mesh_uvs,
};
use gltforge_unity::schema::{has_distinct_attributes, AccessorComponentType, AccessorType, BufferViewTarget, MeshPrimitiveMode};
use gltforge_unity::unity_gltf::build_unity_gltf;

fn bits(x: f32) -> u32 {
    x.to_bits()
}

fn le_u32(b: &[u8], k: usize) -> u32 {
    u32::from_le_bytes([b[k], b[k + 1], b[k + 2], b[k + 3]])
}

#[test]
fn new_context_is_empty() {
    let ctx = ExportContext::new();
    assert!(ctx.nodes.is_empty());
    assert!(ctx.meshes.is_empty());
    let ctx = ExportContext::default();
    assert!(ctx.nodes.is_empty());
}

#[test]
fn context_records_nodes_and_meshes() {
    let mut ctx = ExportContext::new();
    let root = ctx.add_node(Some("Root".to_string()), None, None, None, None);
    let child = ctx.add_node(None, Some(root), Some([bits(1.0), 0, 0]), None, None);
    assert_eq!((root, child), (0, 1));
    let m = ctx.add_mesh(Some("Quad".to_string()));
    assert_eq!(m, 0);
    ctx.set_node_mesh(child, m);
    ctx.set_node_mesh(9, m);
    assert_eq!(ctx.nodes[1].mesh_index, Some(0));
    assert_eq!(ctx.nodes[1].parent, Some(0));
    ctx.set_positions(m, vec![[0, 0, 0]]);
    ctx.set_positions(5, vec![[1, 1, 1]]);
    assert_eq!(ctx.meshes[0].positions, vec![[0, 0, 0]]);
    ctx.set_normals(m, vec![[0, 0, bits(1.0)]]);
    assert_eq!(ctx.meshes[0].normals.len(), 1);
    ctx.add_submesh(m, vec![0, 0, 0]);
    ctx.add_submesh(3, vec![1, 2, 3]);
    assert_eq!(ctx.meshes[0].submeshes.len(), 1);
    assert_eq!(ctx.meshes.len(), 1);
}

#[test]
fn set_uvs_adds_empty_channels_below() {
    let mut ctx = ExportContext::new();
    let m = ctx.add_mesh(None);
    ctx.set_uvs(m, 2, vec![[1, 2]]);
    assert_eq!(ctx.meshes[0].uvs.len(), 3);
    assert!(ctx.meshes[0].uvs[0].is_empty());
    assert!(ctx.meshes[0].uvs[1].is_empty());
    assert_eq!(ctx.meshes[0].uvs[2], vec![[1, 2]]);
    ctx.set_uvs(m, 0, vec![[3, 4]]);
    assert_eq!(ctx.meshes[0].uvs.len(), 3);
    assert_eq!(ctx.meshes[0].uvs[0], vec![[3, 4]]);
    ctx.set_uvs(7, 0, vec![[3, 4]]);
    assert_eq!(ctx.meshes.len(), 1);
}

fn triangle_context() -> ExportContext {
    let mut ctx = ExportContext::new();
    let n = ctx.add_node(
        Some("Tri".to_string()),
        None,
        Some([bits(1.0), bits(2.0), bits(3.0)]),
        Some([0, 0, 0, bits(1.0)]),
        Some([bits(1.0), bits(1.0), bits(1.0)]),
    );
    let m = ctx.add_mesh(Some("TriMesh".to_string()));
    ctx.set_node_mesh(n, m);
    ctx.set_positions(m, vec![[0, 0, 0], [bits(1.0), 0, 0], [0, bits(1.0), 0]]);
    ctx.set_normals(m, vec![[0, 0, bits(1.0)]; 3]);
    ctx.set_uvs(m, 0, vec![[0, 0], [bits(1.0), 0], [0, bits(1.0)]]);
    ctx.add_submesh(m, vec![0, 1, 2]);
    ctx
}

#[test]
fn exported_primitives_name_each_attribute_once() {
    let mut ctx = triangle_context();
    ctx.set_uvs(0, 1, vec![[0, 0]; 3]);
    let (g, _) = build_gltf(&ctx, None);
    assert!(has_distinct_attributes(&g));
    let names: Vec<&str> = g.meshes.as_ref().unwrap()[0].primitives[0]
        .attributes
        .iter()
        .map(|a| a.semantic.as_str())
        .collect();
    assert_eq!(names, vec!["POSITION", "NORMAL", "TEXCOORD_0", "TEXCOORD_1"]);
}

#[test]
fn build_packs_blocks_in_order() {
    let ctx = triangle_context();
    let (g, bin) = build_gltf(&ctx, Some("tri.bin"));
    // positions 36 + normals 36 + uvs 24 + indices 6 = 102 bytes
    assert_eq!(bin.len(), 102);
    let views = g.buffer_views.as_ref().unwrap();
    let offsets: Vec<u32> = views.iter().map(|v| v.byte_offset).collect();
    let lengths: Vec<u32> = views.iter().map(|v| v.byte_length).collect();
    assert_eq!(offsets, vec![0, 36, 72, 96]);
    assert_eq!(lengths, vec![36, 36, 24, 6]);
    assert_eq!(views[3].target, Some(BufferViewTarget::ElementArrayBuffer));
    assert_eq!(views[0].target, Some(BufferViewTarget::ArrayBuffer));
    let accs = g.accessors.as_ref().unwrap();
    assert_eq!(accs.len(), 4);
    assert_eq!(accs[0].accessor_type, AccessorType::Vec3);
    assert!(accs[0].bounded);
    assert!(!accs[1].bounded);
    assert_eq!(accs[2].accessor_type, AccessorType::Vec2);
    assert_eq!(accs[3].component_type, AccessorComponentType::UnsignedShort);
    assert_eq!(accs[3].count, 3);
    // X negated on positions: vertex 1 is (-1, 0, 0).
    assert_eq!(le_u32(&bin, 12), bits(-1.0));
    // winding reversed: [0, 2, 1]
    assert_eq!(&bin[96..102], &[0, 0, 2, 0, 1, 0]);
    let buffers = g.buffers.as_ref().unwrap();
    assert_eq!(buffers.len(), 1);
    assert_eq!(buffers[0].byte_length, 102);
    assert_eq!(buffers[0].uri.as_deref(), Some("tri.bin"));
    assert_eq!(g.asset.version, "2.0");
    assert_eq!(g.asset.generator.as_deref(), Some("gltforge"));
    assert_eq!(g.scene, Some(0));
    assert_eq!(g.scenes.as_ref().unwrap()[0].nodes, Some(vec![0]));
    let mesh = &g.meshes.as_ref().unwrap()[0];
    assert_eq!(mesh.name.as_deref(), Some("TriMesh"));
    let prim = &mesh.primitives[0];
    let attrs: Vec<(&str, u32)> = prim.attributes.iter().map(|a| (a.semantic.as_str(), a.accessor)).collect();
    assert_eq!(attrs, vec![("POSITION", 0), ("NORMAL", 1), ("TEXCOORD_0", 2)]);
    assert_eq!(prim.indices, Some(3));
    assert_eq!(prim.material, None);
    assert_eq!(prim.mode, MeshPrimitiveMode::Triangles);
}

#[test]
fn build_converts_node_transforms() {
    let ctx = triangle_context();
    let (g, _) = build_gltf(&ctx, None);
    let node = &g.nodes.as_ref().unwrap()[0];
    assert_eq!(node.name.as_deref(), Some("Tri"));
    assert_eq!(node.translation, Some([bits(-1.0), bits(2.0), bits(3.0)]));
    // Unity's identity rotation is glTF's identity too, so it is omitted.
    assert_eq!(node.rotation, None);
    assert_eq!(node.scale, None);
    assert_eq!(node.mesh, Some(0));
    assert_eq!(node.children, None);
    assert!(g.buffers.as_ref().unwrap()[0].uri.is_none());
}

#[test]
fn build_omits_identity_parts() {
    let mut ctx = ExportContext::new();
    ctx.add_node(None, None, Some([bits(-0.0), 0, bits(-0.0)]), Some([0, 0, 0, bits(-1.0)]), Some([bits(2.0), bits(1.0), bits(1.0)]));
    ctx.add_node(None, Some(0), None, Some([bits(0.5), 0, 0, bits(-0.5)]), None);
    let (g, bin) = build_gltf(&ctx, Some("x.bin"));
    let nodes = g.nodes.as_ref().unwrap();
    assert_eq!(nodes[0].translation, None);
    assert_eq!(nodes[0].rotation, None);
    assert_eq!(nodes[0].scale, Some([bits(2.0), bits(1.0), bits(1.0)]));
    assert_eq!(nodes[0].children, Some(vec![1]));
    // [-x, y, z, -w] = [-0.5, 0, 0, 0.5]: W already non-negative.
    assert_eq!(nodes[1].rotation, Some([bits(-0.5), 0, 0, bits(0.5)]));
    assert_eq!(g.scenes.as_ref().unwrap()[0].nodes, Some(vec![0]));
    assert!(bin.is_empty());
    assert!(g.buffers.is_none());
    assert!(g.accessors.is_none());
    assert!(g.buffer_views.is_none());
    assert!(g.meshes.is_none());
}

#[test]
fn empty_context_builds_an_empty_scene() {
    let ctx = ExportContext::new();
    let (g, bin) = build_gltf(&ctx, Some("e.bin"));
    assert!(bin.is_empty());
    assert!(g.nodes.is_none());
    assert_eq!(g.scenes.as_ref().unwrap().len(), 1);
    assert_eq!(g.scenes.as_ref().unwrap()[0].nodes, None);
}

#[test]
fn index_blocks_are_aligned() {
    let mut ctx = ExportContext::new();
    let m = ctx.add_mesh(None);
    ctx.set_positions(m, vec![[0, 0, 0]; 3]);
    ctx.add_submesh(m, vec![0, 1, 2]);
    ctx.add_submesh(m, vec![2, 1, 0]);
    let m2 = ctx.add_mesh(None);
    ctx.set_positions(m2, vec![[0, 0, 0]; 3]);
    let (g, bin) = build_gltf(&ctx, None);
    let views = g.buffer_views.as_ref().unwrap();
    // positions 0..36, indices 36..42, indices 42..48, next positions aligned to 48
    let offsets: Vec<u32> = views.iter().map(|v| v.byte_offset).collect();
    assert_eq!(offsets, vec![0, 36, 42, 48]);
    assert_eq!(bin.len(), 84);
    let prims = &g.meshes.as_ref().unwrap()[0].primitives;
    assert_eq!(prims.len(), 2);
    assert_eq!(prims[1].indices, Some(2));
    assert!(g.meshes.as_ref().unwrap()[1].primitives.is_empty());
}

#[test]
fn large_exported_meshes_use_u32_indices() {
    let mut ctx = ExportContext::new();
    let m = ctx.add_mesh(None);
    ctx.set_positions(m, vec![[0, 0, 0]; 65536]);
    ctx.add_submesh(m, vec![0, 1, 65535]);
    let (g, bin) = build_gltf(&ctx, None);
    let accs = g.accessors.as_ref().unwrap();
    assert_eq!(accs[1].component_type, AccessorComponentType::UnsignedInt);
    let n = bin.len();
    assert_eq!(le_u32(&bin, n - 8), 65535);
    assert_eq!(le_u32(&bin, n - 4), 1);
}

#[test]
fn export_then_import_gives_the_mesh_back() {
    let ctx = triangle_context();
    let (g, bin) = build_gltf(&ctx, Some("tri.bin"));
    let unity = build_unity_gltf(&g, &[bin], "tri").unwrap();
    let positions = gltforge_mesh_positions(&unity, 0).unwrap();
    assert_eq!(positions, &vec![[0, 0, 0], [bits(1.0), 0, 0], [0, bits(1.0), 0]]);
    assert_eq!(gltforge_mesh_normals(&unity, 0).unwrap(), &vec![[0, 0, bits(1.0)]; 3]);
    assert_eq!(gltforge_mesh_uvs(&unity, 0, 0).unwrap(), &vec![[0, 0], [bits(1.0), 0], [0, bits(1.0)]]);
    assert_eq!(gltforge_mesh_index_format(&unity, 0), 16);
    assert_eq!(gltforge_mesh_submesh_indices_u16(&unity, 0, 0), Some(&vec![0u16, 1, 2]));
    assert_eq!(gltforge_mesh_submesh_indices_u32(&unity, 0, 0), None);
    let t = gltforge_game_object_transform(&unity, 0);
    assert_eq!(&t[0..3], &[bits(1.0), bits(2.0), bits(3.0)]);
    assert_eq!(&t[3..7], &[0, 0, 0, bits(1.0)]);
    assert_eq!(&t[7..10], &[bits(1.0); 3]);
}

#[test]
fn glb_frames_and_reads_back() {
    let json = b"{\"asset\":{}}".to_vec();
    let bin = vec![1u8, 2, 3, 4, 5];
    let glb = glb_bytes(&json, &bin);
    // header 12 + json chunk 8 + 12 + bin chunk 8 + 8
    assert_eq!(glb.len(), 48);
    assert_eq!(&glb[0..4], b"glTF");
    assert_eq!(le_u32(&glb, 4), 2);
    assert_eq!(le_u32(&glb, 8), 48);
    assert_eq!(le_u32(&glb, 12), 12);
    assert_eq!(&glb[16..20], b"JSON");
    assert_eq!(le_u32(&glb, 32), 8);
    assert_eq!(&glb[36..40], b"BIN\0");
    let chunks = parse_glb(&glb).unwrap();
    assert_eq!(chunks.json, json);
    assert_eq!(chunks.bin, Some(vec![1, 2, 3, 4, 5, 0, 0, 0]));
}

#[test]
fn glb_is_told_from_json_by_its_magic() {
    assert!(is_glb(&glb_bytes(&b"{}".to_vec(), &Vec::new())));
    assert!(is_glb(b"glTF"));
    assert!(!is_glb(b"glT"));
    assert!(!is_glb(b"{\"asset\":{}}"));
    assert!(!is_glb(b"GLTF...."));
    assert!(!is_glb(&[]));
}

#[test]
fn glb_pads_json_with_spaces_and_omits_empty_bin() {
    let json = b"{}".to_vec();
    let glb = glb_bytes(&json, &Vec::new());
    assert_eq!(glb.len(), 24);
    assert_eq!(&glb[20..24], b"{}  ");
    let chunks = parse_glb(&glb).unwrap();
    assert_eq!(chunks.json, b"{}  ".to_vec());
    assert_eq!(chunks.bin, None);
}

#[test]
fn glb_errors() {
    assert_eq!(parse_glb(&[0u8; 11]).err(), Some(GlbError::TooShort));
    let mut bad = glb_bytes(&b"{}".to_vec(), &Vec::new());
    bad[0] = b'x';
    assert!(matches!(parse_glb(&bad).err(), Some(GlbError::InvalidMagic { .. })));
    let mut v1 = glb_bytes(&b"{}".to_vec(), &Vec::new());
    v1[4] = 1;
    assert_eq!(parse_glb(&v1).err(), Some(GlbError::UnsupportedVersion { version: 1 }));
    let mut long = glb_bytes(&b"{}".to_vec(), &Vec::new());
    long[12] = 200;
    assert_eq!(parse_glb(&long).err(), Some(GlbError::ChunkOutOfBounds));
    let header_only = glb_bytes(&b"{}".to_vec(), &Vec::new())[0..12].to_vec();
    assert_eq!(parse_glb(&header_only).err(), Some(GlbError::MissingJsonChunk));
}

#[test]
fn glb_skips_unknown_chunks() {
    let mut glb = Vec::new();
    glb.extend_from_slice(b"glTF");
    glb.extend_from_slice(&2u32.to_le_bytes());
    glb.extend_from_slice(&0u32.to_le_bytes());
    glb.extend_from_slice(&4u32.to_le_bytes());
    glb.extend_from_slice(b"XTRA");
    glb.extend_from_slice(&[9, 9, 9, 9]);
    glb.extend_from_slice(&2u32.to_le_bytes());
    glb.extend_from_slice(b"JSON");
    glb.extend_from_slice(b"{}");
    let chunks = parse_glb(&glb).unwrap();
    assert_eq!(chunks.json, b"{}".to_vec());
    assert_eq!(chunks.bin, None);
}

#[test]
fn exported_glb_imports_back() {
    let ctx = triangle_context();
    let (g, bin) = build_gltf(&ctx, None);
    let glb = glb_bytes(&b"{}".to_vec(), &bin);
    let chunks = parse_glb(&glb).unwrap();
    let buffers = vec![chunks.bin.unwrap()];
    let unity = build_unity_gltf(&g, &buffers, "tri").unwrap();
    assert_eq!(gltforge_mesh_positions(&unity, 0).unwrap().len(), 3);
}

#[test]
fn rotation_with_positive_w_comes_back_negated() {
    let mut ctx = ExportContext::new();
    let q = [bits(0.1), bits(0.2), bits(0.3), bits(0.9)];
    ctx.add_node(None, None, None, Some(q), None);
    let (g, bin) = build_gltf(&ctx, None);
    // glTF gets [-x, y, z, -w] made W-positive: [x, -y, -z, w]
    assert_eq!(g.nodes.as_ref().unwrap()[0].rotation, Some([bits(0.1), bits(-0.2), bits(-0.3), bits(0.9)]));
    let unity = build_unity_gltf(&g, &[bin], "r").unwrap();
    let t = gltforge_game_object_transform(&unity, 0);
    assert_eq!(&t[3..7], &[bits(-0.1), bits(-0.2), bits(-0.3), bits(-0.9)]);
}

#[test]
fn children_follow_parents() {
    let mut ctx = ExportContext::new();
    let a = ctx.add_node(None, None, None, None, None);
    let b = ctx.add_node(None, None, None, None, None);
    ctx.add_node(None, Some(b), None, None, None);
    ctx.add_node(None, Some(a), None, None, None);
    ctx.add_node(None, Some(b), None, None, None);
    let (g, _) = build_gltf(&ctx, None);
    let nodes = g.nodes.as_ref().unwrap();
    assert_eq!(nodes[0].children, Some(vec![3]));
    assert_eq!(nodes[1].children, Some(vec![2, 4]));
    assert_eq!(nodes[2].children, None);
    assert_eq!(g.scenes.as_ref().unwrap()[0].nodes, Some(vec![0, 1]));
}
