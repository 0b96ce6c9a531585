//! Where the buffers of a `.gltf` document come from: each names a file next
//! to the document; embedded (`data:`) URIs and URI-less buffers are not read.
use vstd::prelude::*;
use crate::schema::{Buffer, Gltf, entries, entries_of};

verus! {

/// Why the buffers of a document cannot be loaded from files.
#[derive(Debug, PartialEq, Eq, Structural)]
pub enum BufferSourceError {
    /// Buffer `index` has no URI: its data would be a GLB's binary chunk.
    GlbBufferNotSupported { index: usize },
    /// Buffer `index` embeds its data in a `data:` URI.
    DataUriNotSupported { index: usize },
}

/// The URI starts with `data:`.
pub open spec fn is_data_uri(uri: Seq<char>) -> bool {
    uri.len() >= 5 && uri.take(5) == "data:"@
}

/// Whether `uri` starts with `data:`.
pub fn data_uri(uri: &str) -> (r: bool)
    ensures
        r == is_data_uri(uri@),
{
    proof {
        reveal_strlit("data:");
    }
    let prefix = "data:";
    if uri.unicode_len() < 5 {
        return false;
    }
    let mut k: usize = 0;
    while k < 5
        invariant
            k <= 5,
            uri@.len() >= 5,
            prefix@ == "data:"@,
            prefix@.len() == 5,
            uri@.take(k as int) == prefix@.take(k as int),
        decreases 5 - k,
    {
        if uri.get_char(k) != prefix.get_char(k) {
            assert(uri@.take(5)[k as int] != prefix@[k as int]);
            return false;
        }
        assert(uri@.take(k + 1) =~= prefix@.take(k + 1));
        k = k + 1;
    }
    assert(prefix@.take(5) =~= prefix@);
    true
}

/// The file of each buffer, relative to the document's directory, or the
/// first buffer that is not in a file of its own.
pub open spec fn spec_buffer_files(buffers: Seq<Buffer>) -> Result<Seq<Seq<char>>, BufferSourceError>
    decreases buffers.len(),
{
    if buffers.len() == 0 {
        Ok(Seq::empty())
    } else {
        match spec_buffer_files(buffers.drop_last()) {
            Err(e) => Err(e),
            Ok(files) => {
                let index = (buffers.len() - 1) as usize;
                match buffers.last().uri {
                    None => Err(BufferSourceError::GlbBufferNotSupported { index }),
                    Some(u) => if is_data_uri(u@) {
                        Err(BufferSourceError::DataUriNotSupported { index })
                    } else {
                        Ok(files.push(u@))
                    },
                }
            },
        }
    }
}

/// A buffer that is not in a file stops the whole list.
pub proof fn lemma_buffer_files_err(buffers: Seq<Buffer>, k: int)
    requires
        0 <= k <= buffers.len(),
        spec_buffer_files(buffers.take(k)) is Err,
    ensures
        spec_buffer_files(buffers) == spec_buffer_files(buffers.take(k)),
    decreases buffers.len() - k,
{
    if k < buffers.len() {
        crate::mesh::lemma_take_step(buffers, k);
        lemma_buffer_files_err(buffers, k + 1);
    } else {
        assert(buffers.take(k) =~= buffers);
    }
}

/// The files to read the document's buffers from, in buffer order.
pub fn buffer_files(gltf: &Gltf) -> (r: Result<Vec<String>, BufferSourceError>)
    ensures
        match spec_buffer_files(entries(gltf.buffers)) {
            Ok(files) => r matches Ok(v) && v@.map_values(|s: String| s@) == files,
            Err(e) => r == Err::<Vec<String>, BufferSourceError>(e),
        },
{
    let buffers = entries_of(&gltf.buffers);
    let mut files: Vec<String> = Vec::new();
    let mut i: usize = 0;
    assert(buffers@.take(0) =~= Seq::<Buffer>::empty());
    assert(files@.map_values(|s: String| s@) =~= Seq::<Seq<char>>::empty());
    while i < buffers.len()
        invariant
            i <= buffers@.len(),
            buffers@ == entries(gltf.buffers),
            spec_buffer_files(buffers@.take(i as int)) == Ok::<Seq<Seq<char>>, BufferSourceError>(files@.map_values(|s: String| s@)),
        decreases buffers@.len() - i,
    {
        proof {
            crate::mesh::lemma_take_step(buffers@, i as int);
        }
        let ghost before = files@;
        match &buffers[i].uri {
            None => {
                proof {
                    lemma_buffer_files_err(buffers@, i + 1);
                }
                return Err(BufferSourceError::GlbBufferNotSupported { index: i });
            },
            Some(u) => {
                if data_uri(u.as_str()) {
                    proof {
                        lemma_buffer_files_err(buffers@, i + 1);
                    }
                    return Err(BufferSourceError::DataUriNotSupported { index: i });
                }
                files.push(u.clone());
                assert(files@.map_values(|s: String| s@) =~= before.map_values(|s: String| s@).push(u@));
            },
        }
        i = i + 1;
    }
    assert(buffers@.take(buffers@.len() as int) =~= buffers@);
    Ok(files)
}

} // verus!
