# gltforge_unity

glTF 2.0 for Unity: import a document into Unity-shaped data (left-handed,
merged vertex arrays, one sub-mesh per primitive), export a Unity scene back to
glTF (`.gltf` + `.bin`, or a single `.glb`), and inspect a document.

The library in `src/` is verified with Verus. Floats are carried as their
IEEE-754 bit patterns, so every conversion the library makes (negating an axis,
reversing the winding, packing little-endian bytes, choosing an index format)
is exact and proved; the few steps that need float arithmetic (flipping V,
decomposing a node matrix, accessor bounds) happen in `app/`.

## Layout

- `src/schema.rs`, `resolve.rs`, `decode.rs`, `primitive.rs`, `mesh.rs`,
  `unity_gltf.rs`, `unity_core.rs`, `query.rs`: the import — resolving
  accessors, decoding and converting primitives, merging meshes, and the
  lookups behind the importer's C ABI.
- `src/export_context.rs`, `pack.rs`, `assemble.rs`, `glb.rs`: the export —
  the scene accumulated from Unity, the packed binary buffer, the glTF
  document, and the GLB container (written and read back).
- `src/roundtrip.rs`, `readback.rs`: the laws relating export and import.
- `src/inspect.rs`, `buffers.rs`: what `gltforge inspect` reports, and where a
  document's buffers are read from.
- `app/`: the `gltforge` command line, JSON reading and writing, file I/O, and
  the C ABI of the importer and exporter.
- `tests/`: tests of the library on concrete documents.
