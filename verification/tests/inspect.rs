use gltforge_unity::buffers::{buffer_files, data_uri, BufferSourceError};
use gltforge_unity::inspect::{
    accessor_type_str, component_type_str, dump_mesh_verts, mesh_reports, mode_str, node_heading_line, node_tree,
    str_lt, summary_counts, AccessorInfo, AccessorRef, PrimitiveDump,
};
use gltforge_unity::schema::{
    attribute_list, has_distinct_attributes, Accessor, AccessorComponentType, AccessorType, Asset, Attribute, Buffer, BufferView, Gltf,
    Mesh, MeshPrimitive, MeshPrimitiveMode, Node, Scene,
};

fn document() -> Gltf {
    Gltf {
        asset: Asset { version: "2.0".to_string(), generator: None, copyright: None, min_version: None },
        scene: None,
        accessors: None,
        buffers: None,
        buffer_views: None,
        images: None,
        materials: None,
        meshes: None,
        nodes: None,
        scenes: None,
        textures: None,
        animation_count: 0,
        skin_count: 0,
    }
}

fn node(children: Option<Vec<u32>>) -> Node {
    Node {
        children,
        mesh: None,
        matrix: None,
        matrix_trs: None,
        translation: None,
        rotation: None,
        scale: None,
        name: None,
    }
}

#[test]
fn counts_every_array() {
    let mut g = document();
    g.nodes = Some(vec![node(None), node(None)]);
    g.scenes = Some(vec![Scene { nodes: None, name: None }]);
    g.animation_count = 3;
    let c = summary_counts(&g);
    assert_eq!(c.nodes, 2);
    assert_eq!(c.scenes, 1);
    assert_eq!(c.meshes, 0);
    assert_eq!(c.animations, 3);
    assert_eq!(c.skins, 0);
}

#[test]
fn enumeration_names() {
    assert_eq!(mode_str(MeshPrimitiveMode::Triangles), "TRIANGLES");
    assert_eq!(mode_str(MeshPrimitiveMode::LineLoop), "LINE_LOOP");
    assert_eq!(accessor_type_str(AccessorType::Mat4), "MAT4");
    assert_eq!(component_type_str(AccessorComponentType::UnsignedShort), "UNSIGNED_SHORT");
}

#[test]
fn node_tree_walks_depth_first() {
    let mut g = document();
    assert_eq!(node_tree(&g), None);
    g.nodes = Some(vec![node(Some(vec![2, 1])), node(None), node(Some(vec![3, 9])), node(None)]);
    g.scenes = Some(vec![Scene { nodes: Some(vec![0]), name: None }]);
    assert_eq!(node_tree(&g), Some(vec![(0, 0), (2, 1), (3, 2), (1, 1)]));
    g.scene = Some(4);
    assert_eq!(node_tree(&g), Some(vec![]));
}

#[test]
fn node_tree_stops_on_a_cycle() {
    let mut g = document();
    g.nodes = Some(vec![node(Some(vec![1])), node(Some(vec![0]))]);
    g.scenes = Some(vec![Scene { nodes: Some(vec![0]), name: None }]);
    assert_eq!(node_tree(&g), Some(vec![(0, 0), (1, 1)]));
}

#[test]
fn text_order() {
    assert!(str_lt("NORMAL", "POSITION"));
    assert!(!str_lt("POSITION", "NORMAL"));
    assert!(str_lt("TEXCOORD", "TEXCOORD_0"));
    assert!(!str_lt("A", "A"));
}

fn accessor(count: u32, accessor_type: AccessorType) -> Accessor {
    Accessor {
        buffer_view: Some(0),
        byte_offset: None,
        component_type: AccessorComponentType::Float,
        count,
        accessor_type,
        bounded: false,
    }
}

#[test]
fn mesh_report_sorts_attributes() {
    let mut g = document();
    assert!(mesh_reports(&g).is_none());
    g.accessors = Some(vec![accessor(3, AccessorType::Vec3), accessor(3, AccessorType::Vec2)]);
    g.meshes = Some(vec![Mesh {
        primitives: vec![MeshPrimitive {
            attributes: vec![
                Attribute { semantic: "TEXCOORD_0".to_string(), accessor: 1 },
                Attribute { semantic: "POSITION".to_string(), accessor: 0 },
                Attribute { semantic: "NORMAL".to_string(), accessor: 7 },
            ],
            indices: Some(5),
            material: None,
            mode: MeshPrimitiveMode::Triangles,
        }],
        name: Some("M".to_string()),
    }]);
    let reports = mesh_reports(&g).unwrap();
    assert_eq!(reports.len(), 1);
    assert_eq!(reports[0].name.as_deref(), Some("M"));
    let prim = &reports[0].primitives[0];
    assert_eq!(prim.mode, MeshPrimitiveMode::Triangles);
    assert_eq!(prim.indices, Some(AccessorRef { index: 5, info: None }));
    let names: Vec<&str> = prim.attributes.iter().map(|a| a.semantic.as_str()).collect();
    assert_eq!(names, vec!["NORMAL", "POSITION", "TEXCOORD_0"]);
    assert_eq!(prim.attributes[0].accessor, AccessorRef { index: 7, info: None });
    assert_eq!(
        prim.attributes[1].accessor,
        AccessorRef {
            index: 0,
            info: Some(AccessorInfo {
                accessor_type: AccessorType::Vec3,
                component_type: AccessorComponentType::Float,
                count: 3
            })
        }
    );
}

#[test]
fn node_heading_shows_index_name_and_mesh() {
    let mut n = node(None);
    assert_eq!(node_heading_line(&n, 0, 0), "node 0: <unnamed>");
    n.name = Some("Cube".to_string());
    n.mesh = Some(12);
    assert_eq!(node_heading_line(&n, 305, 2), "    node 305: Cube  [mesh 12]");
}

#[test]
fn attribute_list_refuses_a_name_twice() {
    let named = vec![("POSITION".to_string(), 0u32), ("NORMAL".to_string(), 1), ("POSITION".to_string(), 2)];
    assert!(attribute_list(&named).is_none());
    let named = vec![("POSITION".to_string(), 0u32), ("NORMAL".to_string(), 1)];
    let attrs = attribute_list(&named).unwrap();
    assert_eq!(attrs.len(), 2);
    assert_eq!(attrs[0].semantic, "POSITION");
    assert_eq!(attrs[0].accessor, 0);
    assert_eq!(attrs[1].semantic, "NORMAL");
    assert_eq!(attrs[1].accessor, 1);
    assert_eq!(attribute_list(&Vec::new()).map(|v| v.len()), Some(0));
}

#[test]
fn distinct_attributes_of_a_document() {
    let mut g = document();
    assert!(has_distinct_attributes(&g));
    let prim = |names: &[&str]| MeshPrimitive {
        attributes: names
            .iter()
            .enumerate()
            .map(|(i, n)| Attribute { semantic: n.to_string(), accessor: i as u32 })
            .collect(),
        indices: None,
        material: None,
        mode: MeshPrimitiveMode::Triangles,
    };
    g.meshes = Some(vec![Mesh { primitives: vec![prim(&["POSITION", "NORMAL"]), prim(&["POSITION"])], name: None }]);
    assert!(has_distinct_attributes(&g));
    g.meshes = Some(vec![
        Mesh { primitives: vec![prim(&["POSITION"])], name: None },
        Mesh { primitives: vec![prim(&["TEXCOORD_0", "POSITION", "TEXCOORD_0"])], name: None },
    ]);
    assert!(!has_distinct_attributes(&g));
}

#[test]
fn mesh_report_lists_each_attribute_once_in_ascending_order() {
    let mut g = document();
    let names = ["TEXCOORD_1", "COLOR_0", "TEXCOORD_0", "POSITION", "NORMAL", "TANGENT"];
    g.meshes = Some(vec![Mesh {
        primitives: vec![MeshPrimitive {
            attributes: names
                .iter()
                .enumerate()
                .map(|(i, n)| Attribute { semantic: n.to_string(), accessor: i as u32 })
                .collect(),
            indices: None,
            material: None,
            mode: MeshPrimitiveMode::Points,
        }],
        name: None,
    }]);
    assert!(has_distinct_attributes(&g));
    let reports = mesh_reports(&g).unwrap();
    let prim = &reports[0].primitives[0];
    assert_eq!(prim.indices, None);
    let got: Vec<(&str, u32)> = prim.attributes.iter().map(|a| (a.semantic.as_str(), a.accessor.index)).collect();
    assert_eq!(
        got,
        vec![("COLOR_0", 1), ("NORMAL", 4), ("POSITION", 3), ("TANGENT", 5), ("TEXCOORD_0", 2), ("TEXCOORD_1", 0)]
    );
}

fn dump_document(stride: Option<u32>, count: u32) -> (Gltf, Vec<Vec<u8>>) {
    let mut bin = Vec::new();
    for v in [1.0f32, 2.0, 3.0, 4.0, 5.0, 6.0, 7.0, 8.0, 9.0] {
        bin.extend_from_slice(&v.to_le_bytes());
    }
    let mut g = document();
    g.buffer_views = Some(vec![BufferView { buffer: 0, byte_length: 36, byte_offset: 0, byte_stride: stride, target: None }]);
    g.buffers = Some(vec![Buffer { byte_length: 36, uri: None }]);
    g.accessors = Some(vec![accessor(count, AccessorType::Vec3), accessor(1, AccessorType::Vec2)]);
    g.meshes = Some(vec![Mesh {
        primitives: vec![
            MeshPrimitive {
                attributes: vec![Attribute { semantic: "POSITION".to_string(), accessor: 0 }],
                indices: None,
                material: None,
                mode: MeshPrimitiveMode::Triangles,
            },
            MeshPrimitive { attributes: vec![], indices: None, material: None, mode: MeshPrimitiveMode::Points },
            MeshPrimitive {
                attributes: vec![Attribute { semantic: "POSITION".to_string(), accessor: 1 }],
                indices: None,
                material: None,
                mode: MeshPrimitiveMode::Triangles,
            },
            MeshPrimitive {
                attributes: vec![Attribute { semantic: "POSITION".to_string(), accessor: 8 }],
                indices: None,
                material: None,
                mode: MeshPrimitiveMode::Triangles,
            },
        ],
        name: None,
    }]);
    (g, vec![bin])
}

#[test]
fn dump_reads_positions_at_the_stride() {
    let (g, buffers) = dump_document(Some(24), 2);
    assert!(dump_mesh_verts(&g, &buffers, 1).is_none());
    let d = dump_mesh_verts(&g, &buffers, 0).unwrap();
    assert!(d.name.is_none());
    match &d.primitives[0] {
        PrimitiveDump::Vertices { count, accessor, buffer_view, stride, vertices } => {
            assert_eq!((*count, *accessor, *buffer_view, *stride), (2, 0, 0, 24));
            assert_eq!(vertices[0], Some([1.0f32.to_bits(), 2.0f32.to_bits(), 3.0f32.to_bits()]));
            assert_eq!(vertices[1], Some([7.0f32.to_bits(), 8.0f32.to_bits(), 9.0f32.to_bits()]));
        },
        _ => panic!("expected vertices"),
    }
    assert!(matches!(d.primitives[1], PrimitiveDump::NoPosition));
    assert!(matches!(d.primitives[2], PrimitiveDump::NotVec3Float));
    assert!(matches!(d.primitives[3], PrimitiveDump::AccessorOutOfRange { accessor: 8 }));
}

#[test]
fn dump_marks_vertices_past_the_buffer() {
    let (g, buffers) = dump_document(None, 4);
    let d = dump_mesh_verts(&g, &buffers, 0).unwrap();
    match &d.primitives[0] {
        PrimitiveDump::Vertices { stride, vertices, .. } => {
            assert_eq!(*stride, 12);
            assert_eq!(vertices.len(), 4);
            assert!(vertices[2].is_some());
            assert_eq!(vertices[3], None);
        },
        _ => panic!("expected vertices"),
    }
}

#[test]
fn dump_reports_missing_views_and_buffers() {
    let (mut g, buffers) = dump_document(None, 1);
    g.accessors.as_mut().unwrap()[0].buffer_view = None;
    let d = dump_mesh_verts(&g, &buffers, 0).unwrap();
    assert!(matches!(d.primitives[0], PrimitiveDump::NoBufferView));
    g.accessors.as_mut().unwrap()[0].buffer_view = Some(3);
    let d = dump_mesh_verts(&g, &buffers, 0).unwrap();
    assert!(matches!(d.primitives[0], PrimitiveDump::BufferViewOutOfRange { buffer_view: 3 }));
    g.accessors.as_mut().unwrap()[0].buffer_view = Some(0);
    g.buffer_views.as_mut().unwrap()[0].buffer = 2;
    let d = dump_mesh_verts(&g, &buffers, 0).unwrap();
    assert!(matches!(d.primitives[0], PrimitiveDump::BufferOutOfRange { buffer: 2 }));
}

#[test]
fn buffer_files_and_their_refusals() {
    assert!(data_uri("data:application/octet-stream;base64,AAAA"));
    assert!(!data_uri("dat"));
    assert!(!data_uri("model.bin"));
    let mut g = document();
    assert_eq!(buffer_files(&g), Ok(vec![]));
    g.buffers = Some(vec![
        Buffer { byte_length: 4, uri: Some("a.bin".to_string()) },
        Buffer { byte_length: 4, uri: Some("b.bin".to_string()) },
    ]);
    assert_eq!(buffer_files(&g), Ok(vec!["a.bin".to_string(), "b.bin".to_string()]));
    g.buffers.as_mut().unwrap()[1].uri = Some("data:,xyz".to_string());
    assert_eq!(buffer_files(&g), Err(BufferSourceError::DataUriNotSupported { index: 1 }));
    g.buffers.as_mut().unwrap()[0].uri = None;
    assert_eq!(buffer_files(&g), Err(BufferSourceError::GlbBufferNotSupported { index: 0 }));
}
