//! Errors of the glTF → Unity conversion.
use vstd::prelude::*;
use crate::schema::{AccessorComponentType, MeshPrimitiveMode};
use crate::resolve::ResolveError;

verus! {

/// Why a document could not be converted.
#[derive(Debug, PartialEq, Eq, Structural)]
pub enum ConvertError {
    NoNodes,
    NodeIndexOutOfRange { index: usize },
    NodeHasNoMesh { index: usize },
    NoMeshes,
    MeshIndexOutOfRange { index: usize },
    /// A primitive's topology is not `Triangles`.
    UnsupportedPrimitiveMode { mode: MeshPrimitiveMode },
    /// A primitive has no `POSITION` attribute.
    NoPositionAttribute,
    /// The `POSITION` accessor index is past the end of the accessors.
    PositionAccessorOutOfRange,
    /// The `POSITION` accessor is not `VEC3` of `FLOAT`.
    InvalidPositionType,
    /// A primitive has no index accessor.
    NoIndices,
    /// The index accessor index is past the end of the accessors.
    IndexAccessorOutOfRange,
    /// The index accessor's component type is not an unsigned integer type.
    UnsupportedIndexComponentType { component_type: AccessorComponentType },
    /// Resolving an accessor to bytes failed.
    Resolve { source: ResolveError },
}

} // verus!
