//! The GLB container: a 12-byte header (`glTF`, version 2, total length)
//! followed by chunks, each an 8-byte header (length, type) and its data. The
//! first `JSON` chunk holds the document; the first `BIN` chunk, if any, is
//! buffer 0.
use vstd::prelude::*;
use crate::bits::{le_bytes_u32, lemma_le_u32_roundtrip, push_u32_le};
use crate::decode::{read_u32, u32_at};
use crate::pack::padding;
use crate::mesh::append_copy;

verus! {

/// `"glTF"` read as a little-endian `u32`.
pub const GLB_MAGIC: u32 = 0x4654_6C67u32;

/// The only GLB container version.
pub const GLB_VERSION: u32 = 2u32;

/// The type of the chunk that holds the JSON document (`"JSON"`).
pub const CHUNK_JSON: u32 = 0x4E4F_534Au32;

/// The type of the chunk that holds the binary buffer (`"BIN\0"`).
pub const CHUNK_BIN: u32 = 0x004E_4942u32;

/// Why bytes could not be read as a GLB container.
#[derive(Debug, PartialEq, Eq, Structural)]
pub enum GlbError {
    /// Fewer than the 12 bytes of the header.
    TooShort,
    /// The header does not start with `glTF`.
    InvalidMagic { magic: u32 },
    /// The header names a version other than 2.
    UnsupportedVersion { version: u32 },
    /// A chunk's data runs past the end of the bytes.
    ChunkOutOfBounds,
    /// No `JSON` chunk.
    MissingJsonChunk,
}

/// The chunks that a GLB container carries.
pub struct GlbChunks {
    /// The data of the first `JSON` chunk.
    pub json: Vec<u8>,
    /// The data of the first `BIN` chunk, if there is one.
    pub bin: Option<Vec<u8>>,
}

/// The bytes start with the four characters `glTF`, the mark of a GLB
/// container (a JSON document starts with `{` or white space).
pub open spec fn starts_with_glb_magic(d: Seq<u8>) -> bool {
    d.len() >= 4 && d[0] == 0x67u8 && d[1] == 0x6Cu8 && d[2] == 0x54u8 && d[3] == 0x46u8
}

/// Whether the bytes of a file are a GLB container rather than JSON text:
/// they start with `glTF`.
pub fn is_glb(data: &[u8]) -> (r: bool)
    ensures
        r == starts_with_glb_magic(data@),
{
    data.len() >= 4 && data[0] == 0x67u8 && data[1] == 0x6Cu8 && data[2] == 0x54u8 && data[3] == 0x46u8
}

/// The bytes of an optional byte vector.
pub open spec fn opt_bytes(v: Option<Vec<u8>>) -> Option<Seq<u8>> {
    match v {
        Some(b) => Some(b@),
        None => None,
    }
}

/// The contents of a [`GlbChunks`].
pub struct GlbChunksView {
    pub json: Seq<u8>,
    pub bin: Option<Seq<u8>>,
}

impl View for GlbChunks {
    type V = GlbChunksView;

    open spec fn view(&self) -> GlbChunksView {
        GlbChunksView {
            json: self.json@,
            bin: opt_bytes(self.bin),
        }
    }
}

/// Walk the chunks from byte `offset` on, keeping the first `JSON` and the
/// first `BIN` chunk; other chunk types are skipped. The walk ends when fewer
/// than 8 bytes are left.
pub open spec fn scan_chunks(d: Seq<u8>, offset: nat, json: Option<Seq<u8>>, bin: Option<Seq<u8>>)
    -> Result<(Option<Seq<u8>>, Option<Seq<u8>>), GlbError>
    decreases d.len() - offset,
{
    if offset + 8 > d.len() {
        Ok((json, bin))
    } else {
        let length = u32_at(d, offset as int);
        let kind = u32_at(d, offset as int + 4);
        let end: nat = offset + 8 + length as nat;
        if end > d.len() {
            Err(GlbError::ChunkOutOfBounds)
        } else {
            let chunk = d.subrange(offset as int + 8, end as int);
            let json2 = if kind == CHUNK_JSON && json is None { Some(chunk) } else { json };
            let bin2 = if kind == CHUNK_BIN && bin is None { Some(chunk) } else { bin };
            scan_chunks(d, end, json2, bin2)
        }
    }
}

/// What [`parse_glb`] gives for the bytes `d`.
pub open spec fn spec_parse_glb(d: Seq<u8>) -> Result<GlbChunksView, GlbError> {
    if d.len() < 12 {
        Err(GlbError::TooShort)
    } else if u32_at(d, 0) != GLB_MAGIC {
        Err(GlbError::InvalidMagic { magic: u32_at(d, 0) })
    } else if u32_at(d, 4) != GLB_VERSION {
        Err(GlbError::UnsupportedVersion { version: u32_at(d, 4) })
    } else {
        match scan_chunks(d, 12, None, None) {
            Err(e) => Err(e),
            Ok((None, _)) => Err(GlbError::MissingJsonChunk),
            Ok((Some(json), bin)) => Ok(GlbChunksView { json, bin }),
        }
    }
}

fn copy_bytes(src: &[u8], start: usize, end: usize) -> (r: Vec<u8>)
    requires
        start <= end <= src@.len(),
    ensures
        r@ == src@.subrange(start as int, end as int),
{
    let mut out: Vec<u8> = Vec::new();
    let mut k: usize = start;
    while k < end
        invariant
            start <= k <= end <= src@.len(),
            out@ =~= src@.subrange(start as int, k as int),
        decreases end - k,
    {
        out.push(src[k]);
        k = k + 1;
    }
    out
}

/// Split a GLB container into its `JSON` chunk and its `BIN` chunk.
pub fn parse_glb(data: &[u8]) -> (r: Result<GlbChunks, GlbError>)
    ensures
        match spec_parse_glb(data@) {
            Ok(v) => r matches Ok(c) && c@ == v,
            Err(e) => r matches Err(f) && f == e,
        },
{
    if data.len() < 12 {
        return Err(GlbError::TooShort);
    }
    let magic = read_u32(data, 0);
    if magic != GLB_MAGIC {
        return Err(GlbError::InvalidMagic { magic });
    }
    let version = read_u32(data, 4);
    if version != GLB_VERSION {
        return Err(GlbError::UnsupportedVersion { version });
    }
    let mut json: Option<Vec<u8>> = None;
    let mut bin: Option<Vec<u8>> = None;
    let mut offset: usize = 12;
    while data.len() - offset >= 8
        invariant
            12 <= offset <= data@.len(),
            u32_at(data@, 0) == GLB_MAGIC,
            u32_at(data@, 4) == GLB_VERSION,
            scan_chunks(data@, 12, None, None) == scan_chunks(
                data@,
                offset as nat,
                opt_bytes(json),
                opt_bytes(bin),
            ),
        decreases data@.len() - offset,
    {
        let length = read_u32(data, offset);
        let kind = read_u32(data, offset + 4);
        let ghost jv = opt_bytes(json);
        let ghost bv = opt_bytes(bin);
        assert(length == u32_at(data@, offset as int) && kind == u32_at(data@, offset as int + 4));
        if length as usize > data.len() - offset - 8 {
            assert(offset as nat + 8 + length as nat > data@.len());
            assert(scan_chunks(data@, offset as nat, jv, bv) == Err::<(Option<Seq<u8>>, Option<Seq<u8>>), GlbError>(GlbError::ChunkOutOfBounds));
            return Err(GlbError::ChunkOutOfBounds);
        }
        let end = offset + 8 + length as usize;
        if kind == CHUNK_JSON && json.is_none() {
            json = Some(copy_bytes(data, offset + 8, end));
        } else if kind == CHUNK_BIN && bin.is_none() {
            bin = Some(copy_bytes(data, offset + 8, end));
        }
        offset = end;
    }
    match json {
        None => Err(GlbError::MissingJsonChunk),
        Some(json) => Ok(GlbChunks { json, bin }),
    }
}

// ---- writing --------------------------------------------------------------------

/// `n` rounded up to a multiple of 4.
pub open spec fn padded4(n: nat) -> nat {
    n + padding(n, 4)
}

/// The length of the container that frames `json` and `bin` (no `BIN` chunk
/// when `bin` is empty).
pub open spec fn glb_len(json_len: nat, bin_len: nat) -> nat {
    12 + 8 + padded4(json_len) + if bin_len > 0 { 8 + padded4(bin_len) } else { 0 }
}

/// `n` copies of `b`.
pub open spec fn fill(b: u8, n: nat) -> Seq<u8> {
    Seq::new(n, |i: int| b)
}

/// The GLB container of `json` and `bin`: the JSON chunk padded with spaces,
/// then, when `bin` is not empty, the BIN chunk padded with zeros.
pub open spec fn spec_glb(json: Seq<u8>, bin: Seq<u8>) -> Seq<u8> {
    le_bytes_u32(GLB_MAGIC) + le_bytes_u32(GLB_VERSION) + le_bytes_u32(glb_len(json.len(), bin.len()) as u32)
        + le_bytes_u32(padded4(json.len()) as u32) + le_bytes_u32(CHUNK_JSON)
        + json + fill(0x20u8, padding(json.len(), 4))
        + if bin.len() > 0 {
            le_bytes_u32(padded4(bin.len()) as u32) + le_bytes_u32(CHUNK_BIN)
                + bin + fill(0u8, padding(bin.len(), 4))
        } else {
            Seq::empty()
        }
}

/// What [`glb_bytes`] writes is recognised as a GLB container by [`is_glb`].
pub proof fn law_glb_is_recognised(json: Seq<u8>, bin: Seq<u8>)
    ensures
        starts_with_glb_magic(spec_glb(json, bin)),
{
    let d = spec_glb(json, bin);
    let m = le_bytes_u32(GLB_MAGIC);
    assert(m =~= seq![0x67u8, 0x6Cu8, 0x54u8, 0x46u8]);
    assert(d.len() >= 4);
    assert(d[0] == m[0] && d[1] == m[1] && d[2] == m[2] && d[3] == m[3]);
}

fn push_fill(out: &mut Vec<u8>, b: u8, n: usize)
    ensures
        final(out)@ == old(out)@ + fill(b, n as nat),
{
    let mut k: usize = 0;
    while k < n
        invariant
            k <= n,
            out@ =~= old(out)@ + fill(b, k as nat),
        decreases n - k,
    {
        out.push(b);
        k = k + 1;
    }
}

fn padding_of(n: usize) -> (r: usize)
    ensures
        r == padding(n as nat, 4),
{
    if n % 4 == 0 { 0 } else { 4 - n % 4 }
}

/// Frame a JSON document and its binary buffer as a GLB container.
pub fn glb_bytes(json: &Vec<u8>, bin: &Vec<u8>) -> (r: Vec<u8>)
    requires
        glb_len(json@.len(), bin@.len()) <= u32::MAX,
    ensures
        r@ == spec_glb(json@, bin@),
{
    let json_padding = padding_of(json.len());
    let json_padded = json.len() + json_padding;
    let has_bin = bin.len() > 0;
    let bin_padding = if has_bin { padding_of(bin.len()) } else { 0 };
    let bin_padded = bin.len() + bin_padding;
    let total: u32 = (12 + 8 + json_padded + if has_bin { 8 + bin_padded } else { 0 }) as u32;

    let mut out: Vec<u8> = Vec::new();
    push_u32_le(&mut out, GLB_MAGIC);
    push_u32_le(&mut out, GLB_VERSION);
    push_u32_le(&mut out, total);
    push_u32_le(&mut out, json_padded as u32);
    push_u32_le(&mut out, CHUNK_JSON);
    append_copy(&mut out, json);
    push_fill(&mut out, 0x20u8, json_padding);
    let ghost head = out@;
    if has_bin {
        push_u32_le(&mut out, bin_padded as u32);
        push_u32_le(&mut out, CHUNK_BIN);
        append_copy(&mut out, bin);
        push_fill(&mut out, 0u8, bin_padding);
    }
    assert(out@ =~= spec_glb(json@, bin@));
    out
}

// ---- reading back what was written ---------------------------------------------

/// A `u32` written in the middle of a byte sequence reads back at its offset.
pub proof fn lemma_u32_at_concat(pre: Seq<u8>, x: u32, post: Seq<u8>)
    ensures
        u32_at(pre + le_bytes_u32(x) + post, pre.len() as int) == x,
{
    let d = pre + le_bytes_u32(x) + post;
    let b = le_bytes_u32(x);
    assert(d[pre.len() as int] == b[0]);
    assert(d[pre.len() as int + 1] == b[1]);
    assert(d[pre.len() as int + 2] == b[2]);
    assert(d[pre.len() as int + 3] == b[3]);
    lemma_le_u32_roundtrip(x);
}

/// A chunk written in the middle of a byte sequence reads back: its length
/// word, its type word and its data.
pub proof fn lemma_chunk_at(pre: Seq<u8>, length: u32, kind: u32, data: Seq<u8>, post: Seq<u8>)
    requires
        data.len() == length,
    ensures
        ({
            let d = pre + le_bytes_u32(length) + le_bytes_u32(kind) + data + post;
            &&& u32_at(d, pre.len() as int) == length
            &&& u32_at(d, pre.len() as int + 4) == kind
            &&& d.subrange(pre.len() as int + 8, pre.len() as int + 8 + length) == data
            &&& d.len() == pre.len() + 8 + length + post.len()
        }),
{
    let d = pre + le_bytes_u32(length) + le_bytes_u32(kind) + data + post;
    let w0 = le_bytes_u32(length);
    let w1 = le_bytes_u32(kind);
    assert(d =~= pre + w0 + (w1 + data + post));
    lemma_u32_at_concat(pre, length, w1 + data + post);
    assert(d =~= (pre + w0) + w1 + (data + post));
    lemma_u32_at_concat(pre + w0, kind, data + post);
    assert(d.subrange(pre.len() as int + 8, pre.len() as int + 8 + length) =~= data);
}

/// The container written by [`glb_bytes`], split into its parts.
pub proof fn lemma_glb_parts(json: Seq<u8>, bin: Seq<u8>)
    ensures
        ({
            let jchunk = json + fill(0x20u8, padding(json.len(), 4));
            let bchunk = bin + fill(0u8, padding(bin.len(), 4));
            let tail: Seq<u8> = if bin.len() > 0 {
                le_bytes_u32(padded4(bin.len()) as u32) + le_bytes_u32(CHUNK_BIN) + bchunk + Seq::empty()
            } else {
                Seq::empty()
            };
            let head = le_bytes_u32(GLB_MAGIC) + le_bytes_u32(GLB_VERSION)
                + le_bytes_u32(glb_len(json.len(), bin.len()) as u32);
            &&& spec_glb(json, bin) == head + le_bytes_u32(padded4(json.len()) as u32) + le_bytes_u32(CHUNK_JSON) + jchunk + tail
            &&& head.len() == 12
            &&& jchunk.len() == padded4(json.len())
            &&& bchunk.len() == padded4(bin.len())
        }),
{
    let jchunk = json + fill(0x20u8, padding(json.len(), 4));
    let bchunk = bin + fill(0u8, padding(bin.len(), 4));
    let tail: Seq<u8> = if bin.len() > 0 {
        le_bytes_u32(padded4(bin.len()) as u32) + le_bytes_u32(CHUNK_BIN) + bchunk + Seq::empty()
    } else {
        Seq::empty()
    };
    let head = le_bytes_u32(GLB_MAGIC) + le_bytes_u32(GLB_VERSION)
        + le_bytes_u32(glb_len(json.len(), bin.len()) as u32);
    assert(spec_glb(json, bin) =~= head + le_bytes_u32(padded4(json.len()) as u32) + le_bytes_u32(CHUNK_JSON) + jchunk + tail);
}

/// The header of a container reads back.
pub proof fn lemma_header_at(magic: u32, version: u32, rest: Seq<u8>)
    ensures
        u32_at(le_bytes_u32(magic) + le_bytes_u32(version) + rest, 0) == magic,
        u32_at(le_bytes_u32(magic) + le_bytes_u32(version) + rest, 4) == version,
{
    let d = le_bytes_u32(magic) + le_bytes_u32(version) + rest;
    assert(d =~= Seq::<u8>::empty() + le_bytes_u32(magic) + (le_bytes_u32(version) + rest));
    lemma_u32_at_concat(Seq::<u8>::empty(), magic, le_bytes_u32(version) + rest);
    lemma_u32_at_concat(le_bytes_u32(magic), version, rest);
}

/// Reading back a container written by [`glb_bytes`] gives the JSON document
/// (with the spaces that pad it) and, when there was binary data, that data
/// (with the zeros that pad it).
#[verifier::rlimit(40)]
pub proof fn law_glb_roundtrip(json: Seq<u8>, bin: Seq<u8>)
    requires
        glb_len(json.len(), bin.len()) <= u32::MAX,
    ensures
        spec_parse_glb(spec_glb(json, bin)) == Ok::<GlbChunksView, GlbError>(GlbChunksView {
            json: json + fill(0x20u8, padding(json.len(), 4)),
            bin: if bin.len() > 0 { Some(bin + fill(0u8, padding(bin.len(), 4))) } else { None },
        }),
{
    let d = spec_glb(json, bin);
    let pj: u32 = padded4(json.len()) as u32;
    let pb: u32 = padded4(bin.len()) as u32;
    let jchunk = json + fill(0x20u8, padding(json.len(), 4));
    let bchunk = bin + fill(0u8, padding(bin.len(), 4));
    let tail: Seq<u8> = if bin.len() > 0 {
        le_bytes_u32(pb) + le_bytes_u32(CHUNK_BIN) + bchunk + Seq::empty()
    } else {
        Seq::empty()
    };
    let h0 = le_bytes_u32(GLB_MAGIC);
    let h1 = le_bytes_u32(GLB_VERSION);
    let h2 = le_bytes_u32(glb_len(json.len(), bin.len()) as u32);
    let head = h0 + h1 + h2;
    lemma_glb_parts(json, bin);
    assert(d == head + le_bytes_u32(pj) + le_bytes_u32(CHUNK_JSON) + jchunk + tail);
    assert(d =~= h0 + h1 + (h2 + le_bytes_u32(pj) + le_bytes_u32(CHUNK_JSON) + jchunk + tail));
    lemma_header_at(GLB_MAGIC, GLB_VERSION, h2 + le_bytes_u32(pj) + le_bytes_u32(CHUNK_JSON) + jchunk + tail);
    lemma_chunk_at(head, pj, CHUNK_JSON, jchunk, tail);
    assert(d.len() >= 12);
    assert(u32_at(d, 0) == GLB_MAGIC);
    assert(u32_at(d, 4) == GLB_VERSION);
    let after_json = scan_chunks(d, (20 + pj) as nat, Some(jchunk), None);
    assert(scan_chunks(d, 12, None, None) == after_json);
    if bin.len() > 0 {
        let pre = head + le_bytes_u32(pj) + le_bytes_u32(CHUNK_JSON) + jchunk;
        assert(d =~= pre + le_bytes_u32(pb) + le_bytes_u32(CHUNK_BIN) + bchunk + Seq::empty());
        lemma_chunk_at(pre, pb, CHUNK_BIN, bchunk, Seq::empty());
        assert(pre.len() == 20 + pj);
        assert(after_json == scan_chunks(d, (28 + pj + pb) as nat, Some(jchunk), Some(bchunk)));
    }
}

} // verus!
