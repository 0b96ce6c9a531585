use gltforge_unity::error::ConvertError;
use gltforge_unity::primitive::{decode_indices, resolve_primitive, wind};
use gltforge_unity::query::{
    gltforge_game_object_child, gltforge_game_object_child_count, gltforge_game_object_count,
    gltforge_game_object_mesh_count, gltforge_game_object_mesh_index, gltforge_game_object_name,
    gltforge_game_object_transform, gltforge_image_bytes, gltforge_image_count, gltforge_image_name,
    gltforge_image_uri, gltforge_mesh_count, gltforge_mesh_index_format, gltforge_mesh_name,
    gltforge_mesh_normals, gltforge_mesh_positions, gltforge_mesh_submesh_count,
    gltforge_mesh_submesh_indices_u16, gltforge_mesh_submesh_indices_u32,
    gltforge_mesh_submesh_material, gltforge_mesh_tangents, gltforge_mesh_uv_channel_count,
    gltforge_mesh_uvs, gltforge_mesh_vertex_count, gltforge_pbr_metallic_roughness_alpha_cutoff,
    gltforge_pbr_metallic_roughness_alpha_mode, gltforge_pbr_metallic_roughness_base_color_factor,
    gltforge_pbr_metallic_roughness_base_color_texture, gltforge_pbr_metallic_roughness_count,
    gltforge_pbr_metallic_roughness_cull, gltforge_pbr_metallic_roughness_emissive_factor,
    gltforge_pbr_metallic_roughness_metallic_factor, gltforge_pbr_metallic_roughness_name,
    gltforge_pbr_metallic_roughness_normal_scale, gltforge_pbr_metallic_roughness_normal_texture,
    gltforge_root_game_object_count, gltforge_root_game_object_index, gltforge_scene_name,
};
use gltforge_unity::resolve::{resolve_accessor, ResolveError};
use gltforge_unity::schema::{
    Accessor, AccessorComponentType, AccessorType, Asset, Attribute, Buffer, BufferView, Gltf,
    Image, Material, MaterialAlphaMode, Mesh, MeshPrimitive, MeshPrimitiveMode, Node,
    NormalTextureInfo, PbrMetallicRoughness, Scene, Texture, TextureInfo, Trs,
};
use gltforge_unity::unity_core::UnityIndices;
use gltforge_unity::unity_gltf::build_unity_gltf;

fn bits(x: f32) -> u32 {
    x.to_bits()
}

fn floats_le(values: &[f32]) -> Vec<u8> {
    let mut out = Vec::new();
    for v in values {
        out.extend_from_slice(&v.to_le_bytes());
    }
    out
}

fn accessor(buffer_view: u32, component_type: AccessorComponentType, accessor_type: AccessorType, count: u32) -> Accessor {
    Accessor {
        buffer_view: Some(buffer_view),
        byte_offset: None,
        component_type,
        count,
        accessor_type,
        bounded: false,
    }
}

fn view(byte_offset: u32, byte_length: u32) -> BufferView {
    BufferView { buffer: 0, byte_length, byte_offset, byte_stride: None, target: None }
}

fn attribute(name: &str, accessor: u32) -> Attribute {
    Attribute { semantic: name.to_string(), accessor }
}

fn node(name: Option<&str>, children: Option<Vec<u32>>, mesh: Option<u32>) -> Node {
    Node {
        children,
        mesh,
        matrix: None,
        matrix_trs: None,
        translation: None,
        rotation: None,
        scale: None,
        name: name.map(|s| s.to_string()),
    }
}

fn document() -> Gltf {
    Gltf {
        asset: Asset { version: "2.0".to_string(), generator: None, copyright: None, min_version: None },
        scene: None,
        accessors: None,
        buffers: None,
        buffer_views: None,
        images: None,
        materials: None,
        meshes: None,
        nodes: None,
        scenes: None,
        textures: None,
        animation_count: 0,
        skin_count: 0,
    }
}

/// The Khronos "Triangle" sample: three vertices, indices [0, 1, 2] as u16.
fn triangle() -> (Gltf, Vec<Vec<u8>>) {
    let mut bin = vec![0u8, 0, 1, 0, 2, 0, 0, 0];
    bin.extend(floats_le(&[0.0, 0.0, 0.0, 1.0, 0.0, 0.0, 0.0, 1.0, 0.0]));
    let mut g = document();
    g.scene = Some(0);
    g.scenes = Some(vec![Scene { nodes: Some(vec![0]), name: None }]);
    g.nodes = Some(vec![node(None, None, Some(0))]);
    g.meshes = Some(vec![Mesh {
        primitives: vec![MeshPrimitive {
            attributes: vec![attribute("POSITION", 1)],
            indices: Some(0),
            material: None,
            mode: MeshPrimitiveMode::Triangles,
        }],
        name: None,
    }]);
    g.buffers = Some(vec![Buffer { byte_length: 44, uri: Some("triangle.bin".to_string()) }]);
    g.buffer_views = Some(vec![view(0, 6), view(8, 36)]);
    g.accessors = Some(vec![
        accessor(0, AccessorComponentType::UnsignedShort, AccessorType::Scalar, 3),
        accessor(1, AccessorComponentType::Float, AccessorType::Vec3, 3),
    ]);
    (g, vec![bin])
}

#[test]
fn triangle_converts_to_unity() {
    let (g, buffers) = triangle();
    let unity = build_unity_gltf(&g, &buffers, "Triangle").expect("conversion failed");
    assert_eq!(unity.scene_name, "Triangle");
    assert_eq!(unity.root_game_objects, vec![0u32]);
    let go = unity.game_objects.get(&0).expect("node 0 missing");
    assert_eq!(go.name, "0");
    assert!(go.children.is_empty());
    assert_eq!(go.mesh_indices, vec![0u32]);
    let mesh = unity.meshes.get(&0).expect("mesh 0 missing");
    assert_eq!(mesh.name, "0");
    assert_eq!(mesh.vertices, vec![
        [bits(-0.0), bits(0.0), bits(0.0)],
        [bits(-1.0), bits(0.0), bits(0.0)],
        [bits(-0.0), bits(1.0), bits(0.0)],
    ]);
    assert_eq!(mesh.sub_meshes.len(), 1);
    match &mesh.sub_meshes[0].indices {
        UnityIndices::U16(v) => assert_eq!(v, &vec![0u16, 2, 1]),
        UnityIndices::U32(_) => panic!("expected u16 indices for a 3-vertex mesh"),
    }
    assert_eq!(mesh.sub_meshes[0].material_index, None);
    assert!(mesh.normals.is_empty());
    assert!(mesh.tangents.is_empty());
    assert!(mesh.uvs.is_empty());
}

#[test]
fn triangle_queries() {
    let (g, buffers) = triangle();
    let unity = build_unity_gltf(&g, &buffers, "Triangle").unwrap();
    assert_eq!(gltforge_scene_name(&unity), "Triangle");
    assert_eq!(gltforge_root_game_object_count(&unity), 1);
    assert_eq!(gltforge_root_game_object_index(&unity, 0), 0);
    assert_eq!(gltforge_root_game_object_index(&unity, 1), u32::MAX);
    assert_eq!(gltforge_game_object_count(&unity), 1);
    assert_eq!(gltforge_game_object_name(&unity, 0).map(|s| s.as_str()), Some("0"));
    assert_eq!(gltforge_game_object_name(&unity, 7), None);
    assert_eq!(gltforge_game_object_child_count(&unity, 0), 0);
    assert_eq!(gltforge_game_object_child(&unity, 0, 0), u32::MAX);
    assert_eq!(gltforge_game_object_mesh_count(&unity, 0), 1);
    assert_eq!(gltforge_game_object_mesh_index(&unity, 0, 0), 0);
    assert_eq!(gltforge_game_object_mesh_index(&unity, 0, 1), u32::MAX);
    assert_eq!(
        gltforge_game_object_transform(&unity, 0),
        [0, 0, 0, 0, 0, 0, bits(1.0), bits(1.0), bits(1.0), bits(1.0)]
    );
    assert_eq!(gltforge_mesh_count(&unity), 1);
    assert_eq!(gltforge_mesh_name(&unity, 0).map(|s| s.as_str()), Some("0"));
    assert_eq!(gltforge_mesh_vertex_count(&unity, 0), 3);
    assert_eq!(gltforge_mesh_vertex_count(&unity, 5), 0);
    assert_eq!(gltforge_mesh_index_format(&unity, 0), 16);
    assert_eq!(gltforge_mesh_positions(&unity, 0).map(|v| v.len()), Some(3));
    assert!(gltforge_mesh_normals(&unity, 0).is_none());
    assert!(gltforge_mesh_tangents(&unity, 0).is_none());
    assert_eq!(gltforge_mesh_uv_channel_count(&unity, 0), 0);
    assert!(gltforge_mesh_uvs(&unity, 0, 0).is_none());
    assert_eq!(gltforge_mesh_submesh_count(&unity, 0), 1);
    assert_eq!(gltforge_mesh_submesh_indices_u16(&unity, 0, 0), Some(&vec![0u16, 2, 1]));
    assert_eq!(gltforge_mesh_submesh_indices_u32(&unity, 0, 0), None);
    assert_eq!(gltforge_mesh_submesh_material(&unity, 0, 0), -1);
    assert_eq!(gltforge_mesh_submesh_material(&unity, 0, 1), -1);
    assert_eq!(gltforge_image_count(&unity), 0);
    assert_eq!(gltforge_pbr_metallic_roughness_count(&unity), 0);
}

#[test]
fn unnamed_scene_without_scenes_uses_file_stem() {
    let (mut g, buffers) = triangle();
    g.scene = None;
    g.scenes = None;
    let unity = build_unity_gltf(&g, &buffers, "Stem").unwrap();
    assert_eq!(unity.scene_name, "Stem");
    assert!(unity.root_game_objects.is_empty());
}

#[test]
fn named_scene_and_nodes_keep_their_names() {
    let (mut g, buffers) = triangle();
    g.scenes = Some(vec![Scene { nodes: Some(vec![0]), name: Some("Main".to_string()) }]);
    g.nodes = Some(vec![node(Some("Root"), Some(vec![1]), None), node(Some("Leaf"), None, Some(0))]);
    let unity = build_unity_gltf(&g, &buffers, "Stem").unwrap();
    assert_eq!(unity.scene_name, "Main");
    assert_eq!(unity.game_objects.get(&0).unwrap().name, "Root");
    assert_eq!(unity.game_objects.get(&0).unwrap().children, vec![1u32]);
    assert!(unity.game_objects.get(&0).unwrap().mesh_indices.is_empty());
    assert_eq!(unity.game_objects.get(&1).unwrap().name, "Leaf");
    assert_eq!(gltforge_game_object_child(&unity, 0, 0), 1);
}

#[test]
fn node_translation_and_rotation_mirror_x() {
    let (mut g, buffers) = triangle();
    let mut n = node(None, None, None);
    n.translation = Some([bits(1.0), bits(2.0), bits(3.0)]);
    n.rotation = Some([bits(0.1), bits(0.2), bits(0.3), bits(0.9)]);
    n.scale = Some([bits(2.0), bits(2.0), bits(2.0)]);
    g.nodes = Some(vec![n]);
    let unity = build_unity_gltf(&g, &buffers, "T").unwrap();
    assert_eq!(
        gltforge_game_object_transform(&unity, 0),
        [bits(-1.0), bits(2.0), bits(3.0), bits(-0.1), bits(0.2), bits(0.3), bits(-0.9), bits(2.0), bits(2.0), bits(2.0)]
    );
}

#[test]
fn node_matrix_uses_its_decomposition() {
    let (mut g, buffers) = triangle();
    let mut n = node(None, None, None);
    let mut m = [0u32; 16];
    m[0] = bits(1.0);
    m[5] = bits(1.0);
    m[10] = bits(1.0);
    m[15] = bits(1.0);
    m[12] = bits(4.0);
    n.matrix = Some(m);
    n.matrix_trs = Some(Trs {
        translation: [bits(4.0), 0, 0],
        rotation: [0, 0, 0, bits(1.0)],
        scale: [bits(1.0), bits(1.0), bits(1.0)],
    });
    n.translation = Some([bits(9.0), bits(9.0), bits(9.0)]);
    g.nodes = Some(vec![n]);
    let unity = build_unity_gltf(&g, &buffers, "T").unwrap();
    let t = gltforge_game_object_transform(&unity, 0);
    assert_eq!(&t[0..3], &[bits(-4.0), 0, 0]);
    assert_eq!(&t[3..7], &[bits(-0.0), 0, 0, bits(-1.0)]);
}

#[test]
fn two_primitives_share_one_vertex_array() {
    let (mut g, mut buffers) = triangle();
    // A second primitive with its own 3 positions (appended after the first) and u8 indices.
    let base = buffers[0].len() as u32;
    buffers[0].extend(floats_le(&[5.0, 0.0, 0.0, 6.0, 0.0, 0.0, 7.0, 0.0, 0.0]));
    buffers[0].extend([0u8, 1, 2, 0]);
    let mut views = g.buffer_views.take().unwrap();
    views.push(view(base, 36));
    views.push(view(base + 36, 3));
    g.buffer_views = Some(views);
    let mut accs = g.accessors.take().unwrap();
    accs.push(accessor(2, AccessorComponentType::Float, AccessorType::Vec3, 3));
    accs.push(accessor(3, AccessorComponentType::UnsignedByte, AccessorType::Scalar, 3));
    g.accessors = Some(accs);
    let mut meshes = g.meshes.take().unwrap();
    meshes[0].primitives.push(MeshPrimitive {
        attributes: vec![attribute("POSITION", 2)],
        indices: Some(3),
        material: Some(4),
        mode: MeshPrimitiveMode::Triangles,
    });
    meshes[0].name = Some("Pair".to_string());
    g.meshes = Some(meshes);
    let unity = build_unity_gltf(&g, &buffers, "T").unwrap();
    let mesh = unity.meshes.get(&0).unwrap();
    assert_eq!(mesh.name, "Pair");
    assert_eq!(mesh.vertices.len(), 6);
    assert_eq!(mesh.vertices[3], [bits(-5.0), 0, 0]);
    assert_eq!(gltforge_mesh_submesh_count(&unity, 0), 2);
    assert_eq!(gltforge_mesh_submesh_indices_u16(&unity, 0, 1), Some(&vec![3u16, 5, 4]));
    assert_eq!(gltforge_mesh_submesh_material(&unity, 0, 1), 4);
}

#[test]
fn normals_tangents_and_uvs_are_read() {
    let (mut g, mut buffers) = triangle();
    let base = buffers[0].len() as u32;
    buffers[0].extend(floats_le(&[0.0, 0.0, 1.0, 0.0, 0.0, 1.0, 0.0, 0.0, 1.0]));
    buffers[0].extend(floats_le(&[1.0, 0.0, 0.0, 1.0, 1.0, 0.0, 0.0, 1.0, 1.0, 0.0, 0.0, 1.0]));
    buffers[0].extend(floats_le(&[0.0, 0.0, 1.0, 0.0, 0.0, 1.0]));
    let mut views = g.buffer_views.take().unwrap();
    views.push(view(base, 36));
    views.push(view(base + 36, 48));
    views.push(view(base + 84, 24));
    g.buffer_views = Some(views);
    let mut accs = g.accessors.take().unwrap();
    accs.push(accessor(2, AccessorComponentType::Float, AccessorType::Vec3, 3));
    accs.push(accessor(3, AccessorComponentType::Float, AccessorType::Vec4, 3));
    accs.push(accessor(4, AccessorComponentType::Float, AccessorType::Vec2, 3));
    g.accessors = Some(accs);
    let mut meshes = g.meshes.take().unwrap();
    meshes[0].primitives[0].attributes.push(attribute("NORMAL", 2));
    meshes[0].primitives[0].attributes.push(attribute("TANGENT", 3));
    meshes[0].primitives[0].attributes.push(attribute("TEXCOORD_0", 4));
    g.meshes = Some(meshes);
    let unity = build_unity_gltf(&g, &buffers, "T").unwrap();
    let mesh = unity.meshes.get(&0).unwrap();
    assert_eq!(mesh.normals[0], [bits(-0.0), 0, bits(1.0)]);
    assert_eq!(mesh.tangents[0], [bits(-1.0), 0, 0, bits(-1.0)]);
    assert_eq!(gltforge_mesh_uv_channel_count(&unity, 0), 1);
    assert_eq!(gltforge_mesh_uvs(&unity, 0, 0).unwrap()[1], [bits(1.0), 0]);
}

fn first_error(g: &Gltf, buffers: &[Vec<u8>]) -> ConvertError {
    match build_unity_gltf(g, buffers, "T") {
        Ok(_) => panic!("expected the conversion to fail"),
        Err(e) => e,
    }
}

#[test]
fn unsupported_primitive_mode_is_refused() {
    let (mut g, buffers) = triangle();
    g.meshes.as_mut().unwrap()[0].primitives[0].mode = MeshPrimitiveMode::Lines;
    assert_eq!(first_error(&g, &buffers), ConvertError::UnsupportedPrimitiveMode { mode: MeshPrimitiveMode::Lines });
}

#[test]
fn missing_position_is_refused() {
    let (mut g, buffers) = triangle();
    g.meshes.as_mut().unwrap()[0].primitives[0].attributes = vec![attribute("NORMAL", 1)];
    assert_eq!(first_error(&g, &buffers), ConvertError::NoPositionAttribute);
}

#[test]
fn position_accessor_out_of_range_is_refused() {
    let (mut g, buffers) = triangle();
    g.meshes.as_mut().unwrap()[0].primitives[0].attributes = vec![attribute("POSITION", 9)];
    assert_eq!(first_error(&g, &buffers), ConvertError::PositionAccessorOutOfRange);
}

#[test]
fn position_of_wrong_type_is_refused() {
    let (mut g, buffers) = triangle();
    g.accessors.as_mut().unwrap()[1].accessor_type = AccessorType::Vec2;
    assert_eq!(first_error(&g, &buffers), ConvertError::InvalidPositionType);
}

#[test]
fn missing_indices_are_refused() {
    let (mut g, buffers) = triangle();
    g.meshes.as_mut().unwrap()[0].primitives[0].indices = None;
    assert_eq!(first_error(&g, &buffers), ConvertError::NoIndices);
}

#[test]
fn index_accessor_out_of_range_is_refused() {
    let (mut g, buffers) = triangle();
    g.meshes.as_mut().unwrap()[0].primitives[0].indices = Some(5);
    assert_eq!(first_error(&g, &buffers), ConvertError::IndexAccessorOutOfRange);
}

#[test]
fn float_indices_are_refused() {
    let (mut g, buffers) = triangle();
    g.accessors.as_mut().unwrap()[0].component_type = AccessorComponentType::Float;
    g.accessors.as_mut().unwrap()[0].count = 1;
    assert_eq!(
        first_error(&g, &buffers),
        ConvertError::UnsupportedIndexComponentType { component_type: AccessorComponentType::Float }
    );
}

#[test]
fn positions_past_the_buffer_are_refused() {
    let (mut g, buffers) = triangle();
    g.accessors.as_mut().unwrap()[1].count = 4;
    assert_eq!(
        first_error(&g, &buffers),
        ConvertError::Resolve { source: ResolveError::AccessorOutOfBounds { start: 8, end: 56, len: 44 } }
    );
}

#[test]
fn resolve_accessor_errors() {
    let (g, buffers) = triangle();
    let views = g.buffer_views.as_ref().unwrap();
    let mut acc = accessor(0, AccessorComponentType::UnsignedShort, AccessorType::Scalar, 3);
    assert_eq!(resolve_accessor(&acc, views, &buffers).unwrap(), &[0u8, 0, 1, 0, 2, 0][..]);
    acc.byte_offset = Some(2);
    assert_eq!(resolve_accessor(&acc, views, &buffers).unwrap(), &[1u8, 0, 2, 0, 0, 0][..]);
    acc.buffer_view = None;
    assert_eq!(resolve_accessor(&acc, views, &buffers), Err(ResolveError::AccessorNoBufferView));
    acc.buffer_view = Some(7);
    assert_eq!(resolve_accessor(&acc, views, &buffers), Err(ResolveError::BufferViewIndexOutOfRange { index: 7 }));
    let bad_views = vec![BufferView { buffer: 3, byte_length: 6, byte_offset: 0, byte_stride: None, target: None }];
    acc.buffer_view = Some(0);
    assert_eq!(resolve_accessor(&acc, &bad_views, &buffers), Err(ResolveError::BufferIndexOutOfRange { index: 3 }));
    acc.count = 100;
    assert_eq!(
        resolve_accessor(&acc, views, &buffers),
        Err(ResolveError::AccessorOutOfBounds { start: 2, end: 202, len: 44 })
    );
}

#[test]
fn decode_and_wind_indices() {
    assert_eq!(decode_indices(&[1, 2, 3], AccessorComponentType::UnsignedByte).unwrap(), vec![1, 2, 3]);
    assert_eq!(decode_indices(&[1, 1, 2, 0], AccessorComponentType::UnsignedShort).unwrap(), vec![257, 2]);
    assert_eq!(decode_indices(&[1, 0, 0, 1], AccessorComponentType::UnsignedInt).unwrap(), vec![16777217]);
    assert_eq!(
        decode_indices(&[1], AccessorComponentType::Short),
        Err(ConvertError::UnsupportedIndexComponentType { component_type: AccessorComponentType::Short })
    );
    assert_eq!(wind(&vec![0, 1, 2, 3, 4, 5, 6]), vec![0, 2, 1, 3, 5, 4]);
}

#[test]
fn resolve_primitive_reads_positions_and_winds_indices() {
    let (g, buffers) = triangle();
    let prim = &g.meshes.as_ref().unwrap()[0].primitives[0];
    let data = resolve_primitive(prim, g.accessors.as_ref().unwrap(), g.buffer_views.as_ref().unwrap(), &buffers).unwrap();
    assert_eq!(data.wound, vec![0, 2, 1]);
    assert_eq!(data.positions[1], [bits(-1.0), 0, 0]);
    assert!(data.normals.is_none());
    assert!(data.tangents.is_none());
}

#[test]
fn large_meshes_use_u32_indices() {
    let count: u32 = 65536;
    let mut bin = Vec::new();
    for i in 0..3u32 {
        bin.extend_from_slice(&i.to_le_bytes());
    }
    let positions_offset = bin.len() as u32;
    bin.extend(vec![0u8; (count * 12) as usize]);
    let mut g = document();
    g.nodes = Some(vec![node(None, None, Some(0))]);
    g.meshes = Some(vec![Mesh {
        primitives: vec![MeshPrimitive {
            attributes: vec![attribute("POSITION", 1)],
            indices: Some(0),
            material: None,
            mode: MeshPrimitiveMode::Triangles,
        }],
        name: None,
    }]);
    g.buffer_views = Some(vec![view(0, 12), view(positions_offset, count * 12)]);
    g.accessors = Some(vec![
        accessor(0, AccessorComponentType::UnsignedInt, AccessorType::Scalar, 3),
        accessor(1, AccessorComponentType::Float, AccessorType::Vec3, count),
    ]);
    let unity = build_unity_gltf(&g, &[bin], "Big").unwrap();
    assert_eq!(gltforge_mesh_index_format(&unity, 0), 32);
    assert_eq!(gltforge_mesh_submesh_indices_u32(&unity, 0, 0), Some(&vec![0u32, 2, 1]));
    assert_eq!(gltforge_mesh_submesh_indices_u16(&unity, 0, 0), None);
}

#[test]
fn images_and_materials_are_converted() {
    let (mut g, mut buffers) = triangle();
    let base = buffers[0].len() as u32;
    buffers[0].extend([0x89u8, b'P', b'N', b'G']);
    let mut views = g.buffer_views.take().unwrap();
    views.push(view(base, 4));
    g.buffer_views = Some(views);
    g.images = Some(vec![
        Image { uri: Some("albedo.jpg".to_string()), mime_type: None, buffer_view: None, name: None },
        Image { uri: None, mime_type: Some("image/png".to_string()), buffer_view: Some(2), name: Some("Embedded".to_string()) },
        Image { uri: None, mime_type: None, buffer_view: Some(40), name: None },
    ]);
    g.textures = Some(vec![Texture { source: Some(1), name: None }, Texture { source: None, name: None }]);
    g.materials = Some(vec![
        Material {
            pbr_metallic_roughness: Some(PbrMetallicRoughness {
                base_color_factor: [bits(0.5), bits(0.5), bits(0.5), bits(1.0)],
                base_color_texture: Some(TextureInfo { index: 0, tex_coord: 0 }),
                metallic_factor: bits(0.25),
                roughness_factor: bits(1.0),
                metallic_roughness_texture: Some(TextureInfo { index: 1, tex_coord: 0 }),
            }),
            normal_texture: Some(NormalTextureInfo { index: 0, tex_coord: 0, scale: bits(2.0) }),
            occlusion_texture: None,
            emissive_texture: None,
            emissive_factor: [bits(1.0), 0, 0],
            alpha_mode: MaterialAlphaMode::Mask,
            alpha_cutoff: bits(0.3),
            double_sided: true,
            name: Some("Gold".to_string()),
        },
        Material {
            pbr_metallic_roughness: None,
            normal_texture: None,
            occlusion_texture: None,
            emissive_texture: None,
            emissive_factor: [0, 0, 0],
            alpha_mode: MaterialAlphaMode::Opaque,
            alpha_cutoff: bits(0.5),
            double_sided: false,
            name: None,
        },
    ]);
    let unity = build_unity_gltf(&g, &buffers, "T").unwrap();
    assert_eq!(gltforge_image_count(&unity), 3);
    assert_eq!(gltforge_image_name(&unity, 0).map(|s| s.as_str()), Some("0"));
    assert_eq!(gltforge_image_uri(&unity, 0).map(|s| s.as_str()), Some("albedo.jpg"));
    assert_eq!(gltforge_image_bytes(&unity, 0), None);
    assert_eq!(gltforge_image_name(&unity, 1).map(|s| s.as_str()), Some("Embedded"));
    assert_eq!(gltforge_image_bytes(&unity, 1), Some(&vec![0x89u8, b'P', b'N', b'G']));
    assert_eq!(gltforge_image_bytes(&unity, 2), None);
    assert_eq!(gltforge_pbr_metallic_roughness_count(&unity), 2);
    assert_eq!(gltforge_pbr_metallic_roughness_name(&unity, 0).map(|s| s.as_str()), Some("Gold"));
    assert_eq!(gltforge_pbr_metallic_roughness_base_color_texture(&unity, 0), 1);
    assert_eq!(gltforge_pbr_metallic_roughness_normal_texture(&unity, 0), 1);
    assert_eq!(gltforge_pbr_metallic_roughness_base_color_factor(&unity, 0), [bits(0.5), bits(0.5), bits(0.5), bits(1.0)]);
    assert_eq!(gltforge_pbr_metallic_roughness_metallic_factor(&unity, 0), bits(0.25));
    assert_eq!(gltforge_pbr_metallic_roughness_normal_scale(&unity, 0), bits(2.0));
    assert_eq!(gltforge_pbr_metallic_roughness_emissive_factor(&unity, 0), [bits(1.0), 0, 0]);
    assert_eq!(gltforge_pbr_metallic_roughness_alpha_mode(&unity, 0), 1);
    assert_eq!(gltforge_pbr_metallic_roughness_alpha_cutoff(&unity, 0), bits(0.3));
    assert_eq!(gltforge_pbr_metallic_roughness_cull(&unity, 0), 0);
    assert_eq!(gltforge_pbr_metallic_roughness_name(&unity, 1).map(|s| s.as_str()), Some("1"));
    assert_eq!(gltforge_pbr_metallic_roughness_base_color_texture(&unity, 1), -1);
    assert_eq!(gltforge_pbr_metallic_roughness_base_color_factor(&unity, 1), [bits(1.0); 4]);
    assert_eq!(gltforge_pbr_metallic_roughness_metallic_factor(&unity, 1), bits(1.0));
    assert_eq!(gltforge_pbr_metallic_roughness_alpha_mode(&unity, 1), 0);
    assert_eq!(gltforge_pbr_metallic_roughness_cull(&unity, 1), 2);
}
