//! Resolving an accessor to the bytes it covers.
use vstd::prelude::*;
use crate::schema::{Accessor, BufferView, spec_byte_size, spec_component_count};

verus! {

/// Why an accessor could not be resolved to bytes.
#[derive(Debug, PartialEq, Eq, Structural)]
pub enum ResolveError {
    /// The accessor names no buffer view.
    AccessorNoBufferView,
    /// The accessor's buffer view index is past the end of the buffer views.
    BufferViewIndexOutOfRange { index: usize },
    /// The buffer view's buffer index is past the end of the loaded buffers.
    BufferIndexOutOfRange { index: usize },
    /// The byte range `[start, end)` exceeds the buffer's length `len`.
    AccessorOutOfBounds { start: u64, end: u64, len: u64 },
}

/// The size in bytes of one element of the accessor.
pub open spec fn element_size(acc: Accessor) -> nat {
    spec_byte_size(acc.component_type) * spec_component_count(acc.accessor_type)
}

/// The first byte of the accessor's data inside its buffer.
pub open spec fn accessor_start(acc: Accessor, bv: BufferView) -> nat {
    bv.byte_offset as nat + match acc.byte_offset { Some(o) => o as nat, None => 0 }
}

/// One past the last byte of the accessor's data inside its buffer: the
/// elements are read tightly packed (a buffer view's stride is not applied).
pub open spec fn accessor_end(acc: Accessor, bv: BufferView) -> nat {
    accessor_start(acc, bv) + acc.count as nat * element_size(acc)
}

/// What [`resolve_accessor`] returns: the bytes `[start, end)` of the buffer
/// behind the accessor's buffer view, or the first check that fails.
pub open spec fn spec_resolve_accessor(
    acc: Accessor,
    buffer_views: Seq<BufferView>,
    buffers: Seq<Vec<u8>>,
) -> Result<Seq<u8>, ResolveError> {
    match acc.buffer_view {
        None => Err(ResolveError::AccessorNoBufferView),
        Some(bvi) => if bvi >= buffer_views.len() {
            Err(ResolveError::BufferViewIndexOutOfRange { index: bvi as usize })
        } else {
            let bv = buffer_views[bvi as int];
            if bv.buffer >= buffers.len() {
                Err(ResolveError::BufferIndexOutOfRange { index: bv.buffer as usize })
            } else {
                let buf = buffers[bv.buffer as int]@;
                let start = accessor_start(acc, bv);
                let end = accessor_end(acc, bv);
                if end > buf.len() {
                    Err(ResolveError::AccessorOutOfBounds {
                        start: start as u64,
                        end: end as u64,
                        len: buf.len() as u64,
                    })
                } else {
                    Ok(buf.subrange(start as int, end as int))
                }
            }
        },
    }
}

/// Resolve an accessor to its raw bytes: a slice of the backing buffer,
/// tightly packed (a buffer view's stride is not applied).
pub fn resolve_accessor<'a>(
    accessor: &Accessor,
    buffer_views: &[BufferView],
    buffers: &'a [Vec<u8>],
) -> (r: Result<&'a [u8], ResolveError>)
    ensures
        match spec_resolve_accessor(*accessor, buffer_views@, buffers@) {
            Ok(bytes) => r matches Ok(s) && s@ == bytes,
            Err(e) => r == Err::<&[u8], ResolveError>(e),
        },
{
    let bv_index = match accessor.buffer_view {
        Some(i) => i,
        None => return Err(ResolveError::AccessorNoBufferView),
    };
    if bv_index as usize >= buffer_views.len() {
        return Err(ResolveError::BufferViewIndexOutOfRange { index: bv_index as usize });
    }
    let bv = &buffer_views[bv_index as usize];
    let buf_index = bv.buffer;
    if buf_index as usize >= buffers.len() {
        return Err(ResolveError::BufferIndexOutOfRange { index: buf_index as usize });
    }
    let buf = &buffers[buf_index as usize];
    let offset: u64 = match accessor.byte_offset {
        Some(o) => o as u64,
        None => 0,
    };
    let start: u64 = bv.byte_offset as u64 + offset;
    let elem: u64 = (accessor.component_type.byte_size() * accessor.accessor_type.component_count()) as u64;
    assert(elem <= 64) by (nonlinear_arith)
        requires
            elem == spec_byte_size(accessor.component_type) * spec_component_count(accessor.accessor_type),
            spec_byte_size(accessor.component_type) <= 4,
            spec_component_count(accessor.accessor_type) <= 16,
    ;
    assert(accessor.count as u64 * elem <= 0xFFFF_FFFFu64 * 64) by (nonlinear_arith)
        requires elem <= 64;
    let end: u64 = start + accessor.count as u64 * elem;
    let len: u64 = buf.len() as u64;
    if end > len {
        return Err(ResolveError::AccessorOutOfBounds { start, end, len });
    }
    Ok(&buf.as_slice()[start as usize..end as usize])
}

} // verus!
