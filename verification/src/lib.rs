//! gltforge for Unity: glTF 2.0 import into Unity-shaped data, export of a
//! Unity scene back to glTF (`.gltf` + `.bin`, or `.glb`), and the document
//! inspection behind the `gltforge inspect` command, with the contracts of
//! each step and the laws that tie export and import together proved by Verus.

pub mod bits;
pub mod text;
pub mod schema;
pub mod resolve;
pub mod unity_core;
pub mod decode;
pub mod error;
pub mod primitive;
pub mod mesh;
pub mod unity_gltf;
pub mod query;
pub mod export_context;
pub mod pack;
pub mod assemble;
pub mod glb;
pub mod roundtrip;
pub mod readback;
pub mod inspect;
pub mod buffers;
pub mod import_laws;
