//! The binary container codec: a strict writer that frames the serialized
//! document and the binary blob into the container layout, and a strict
//! validating reader that parses an arbitrary byte buffer into chunk
//! ranges, rejecting any deviation with a named diagnosis.
//!
//! Layout: a 12-byte header (4-byte signature, 4-byte version, 4-byte
//! total length), one mandatory text chunk, one optional binary chunk.
//! Each chunk is a 4-byte length, a 4-byte type tag, and a payload padded
//! to a 4-byte boundary -- spaces for the text chunk, zero bytes for the
//! binary chunk.  Chunk length fields exclude the 8-byte chunk header and
//! include the padding; the total length field covers everything.
use vstd::prelude::*;

use crate::document::GLTF;
use crate::error::ContainerError;
use crate::error::ErrorCode;
use crate::json::gltf_to_json;
use crate::json::spec_gltf_json;
use vstd::bytes::lemma_auto_spec_u32_to_from_le_bytes;
use vstd::bytes::spec_u32_from_le_bytes;
use vstd::bytes::spec_u32_to_le_bytes;
use vstd::bytes::u32_from_le_bytes;
use vstd::bytes::u32_to_le_bytes;
use vstd::slice::slice_subrange;

verus! {

/// The byte range of one chunk's payload within a container buffer.
#[derive(Clone, Copy, PartialEq, Eq, Structural, Debug)]
pub struct ChunkMetadata {
    pub start: u32,
    pub length: u32,
}

/// The payload ranges a valid container yields: the text chunk's, and the
/// binary chunk's where one is present.
#[derive(Clone, Copy, PartialEq, Eq, Structural, Debug)]
pub struct GLBMetadata {
    pub json: ChunkMetadata,
    pub bin: Option<ChunkMetadata>,
}

/// The four signature bytes every container starts with.
pub open spec fn glb_magic() -> Seq<u8> {
    seq![0x67u8, 0x6Cu8, 0x54u8, 0x46u8]
}

/// The type tag of the mandatory text chunk.
pub open spec fn glb_json_tag() -> Seq<u8> {
    seq![0x4Au8, 0x53u8, 0x4Fu8, 0x4Eu8]
}

/// The type tag of the optional binary chunk.
pub open spec fn glb_bin_tag() -> Seq<u8> {
    seq![0x42u8, 0x49u8, 0x4Eu8, 0x00u8]
}

/// The smallest multiple of four no smaller than `len`.
pub open spec fn spec_pad4(len: int) -> int {
    len + ((4 - len % 4) % 4)
}

/// The padding law: rounding a length up to the chunk alignment yields a
/// multiple of four and adds at most three bytes.
pub proof fn lemma_padding_law(len: int)
    requires
        len >= 0,
    ensures
        spec_pad4(len) % 4 == 0,
        len <= spec_pad4(len) < len + 4,
{
    let r = len % 4;
    assert(0 <= r < 4);
    assert(len % 4 == r && ((4 - r) % 4) == (if r == 0 {
        0int
    } else {
        4 - r
    }));
    assert((len + ((4 - len % 4) % 4)) % 4 == 0) by (nonlinear_arith)
        requires
            len >= 0,
    ;
}

/// `n` copies of one byte.
pub open spec fn spec_repeat_byte(b: u8, n: nat) -> Seq<u8> {
    Seq::new(n, |i: int| b)
}

/// The total container length for payloads of the given unpadded sizes.
pub open spec fn spec_glb_total_len(json_len: int, bin_len: int) -> int {
    if bin_len > 0 {
        28 + spec_pad4(json_len) + spec_pad4(bin_len)
    } else {
        20 + spec_pad4(json_len)
    }
}

/// The exact bytes of the container framing the given text and binary
/// payloads.
pub open spec fn spec_glb_bytes(json: Seq<u8>, bin: Seq<u8>) -> Seq<u8> {
    let jlen = spec_pad4(json.len() as int);
    let blen = spec_pad4(bin.len() as int);
    let total = spec_glb_total_len(json.len() as int, bin.len() as int);
    glb_magic() + spec_u32_to_le_bytes(2u32) + spec_u32_to_le_bytes(total as u32)
        + spec_u32_to_le_bytes(jlen as u32) + glb_json_tag() + json + spec_repeat_byte(
        0x20u8,
        (jlen - json.len()) as nat,
    ) + if bin.len() > 0 {
        spec_u32_to_le_bytes(blen as u32) + glb_bin_tag() + bin + spec_repeat_byte(
            0u8,
            (blen - bin.len()) as nat,
        )
    } else {
        Seq::empty()
    }
}

/// The little-endian 32-bit field at byte offset `off`.
pub open spec fn spec_read_u32(b: Seq<u8>, off: int) -> u32 {
    spec_u32_from_le_bytes(b.subrange(off, off + 4))
}

/// What the validating reader yields on any byte buffer: the first
/// failing check's diagnosis, or the payload ranges.  The checks run in
/// this order: minimum size, signature, version, declared total length,
/// total alignment, first chunk's tag, its declared length and alignment,
/// room for a second chunk header, and -- when a second chunk is present
/// -- its tag, its declared length, its alignment, and the absence of
/// anything after it.
pub open spec fn spec_parse_glb(b: Seq<u8>) -> Result<GLBMetadata, ContainerError> {
    let n = b.len() as int;
    if n < 24 {
        Err(ContainerError::TooSmall { actual: b.len() as usize })
    } else if b.subrange(0, 4) != glb_magic() {
        Err(ContainerError::BadMagic { b0: b[0], b1: b[1], b2: b[2], b3: b[3] })
    } else if spec_read_u32(b, 4) != 2 {
        Err(ContainerError::UnsupportedVersion { version: spec_read_u32(b, 4) })
    } else if spec_read_u32(b, 8) != n {
        Err(ContainerError::LengthMismatch {
            declared: spec_read_u32(b, 8),
            actual: b.len() as usize,
        })
    } else if spec_read_u32(b, 8) % 4 != 0 {
        Err(ContainerError::LengthNotAligned { length: spec_read_u32(b, 8) })
    } else if b.subrange(16, 20) != glb_json_tag() {
        Err(ContainerError::FirstChunkNotJson { t0: b[16], t1: b[17], t2: b[18], t3: b[19] })
    } else if spec_read_u32(b, 12) > n - 20 {
        Err(ContainerError::JsonChunkTooLong {
            declared: spec_read_u32(b, 12),
            available: (n - 20) as u32,
        })
    } else if spec_read_u32(b, 12) % 4 != 0 {
        Err(ContainerError::JsonChunkNotAligned { length: spec_read_u32(b, 12) })
    } else {
        let json_length = spec_read_u32(b, 12) as int;
        let remaining = n - 20 - json_length;
        if 0 < remaining && remaining < 8 {
            Err(ContainerError::TruncatedChunk { remaining: remaining as u32 })
        } else if remaining <= 8 {
            Ok(
                GLBMetadata {
                    json: ChunkMetadata { start: 20, length: json_length as u32 },
                    bin: None,
                },
            )
        } else {
            let bin_chunk_start = 20 + json_length;
            let bin_length = spec_read_u32(b, bin_chunk_start) as int;
            let bin_data_start = bin_chunk_start + 8;
            if b.subrange(bin_chunk_start + 4, bin_chunk_start + 8) != glb_bin_tag() {
                Err(ContainerError::SecondChunkNotBin {
                    t0: b[bin_chunk_start + 4],
                    t1: b[bin_chunk_start + 5],
                    t2: b[bin_chunk_start + 6],
                    t3: b[bin_chunk_start + 7],
                })
            } else if bin_data_start + bin_length > n {
                Err(ContainerError::BinChunkTooLong {
                    declared: bin_length as u32,
                    available: (n - bin_data_start) as u32,
                })
            } else if bin_length % 4 != 0 {
                Err(ContainerError::BinChunkNotAligned { length: bin_length as u32 })
            } else if bin_data_start + bin_length < n {
                Err(ContainerError::TrailingBytes { extra: (n - bin_data_start - bin_length) as u32 })
            } else {
                Ok(
                    GLBMetadata {
                        json: ChunkMetadata { start: 20, length: json_length as u32 },
                        bin: Some(
                            ChunkMetadata {
                                start: bin_data_start as u32,
                                length: bin_length as u32,
                            },
                        ),
                    },
                )
            }
        }
    }
}

/// The round trip: a container written for any nonempty text payload and
/// any blob passes every check of the validating reader, and the ranges
/// the reader yields recover exactly the payloads as written -- each
/// followed by its padding bytes, which the chunk length fields include.
#[verifier::spinoff_prover]
#[verifier::rlimit(100)]
pub proof fn lemma_container_round_trip(json: Seq<u8>, bin: Seq<u8>)
    requires
        json.len() > 0,
        spec_glb_total_len(json.len() as int, bin.len() as int) <= u32::MAX,
    ensures
        spec_parse_glb(spec_glb_bytes(json, bin)) is Ok,
        spec_parse_glb(spec_glb_bytes(json, bin))->Ok_0.json.start == 20,
        spec_parse_glb(spec_glb_bytes(json, bin))->Ok_0.json.length == spec_pad4(
            json.len() as int,
        ),
        spec_glb_bytes(json, bin).subrange(20, 20 + spec_pad4(json.len() as int)) == json
            + spec_repeat_byte(0x20u8, (spec_pad4(json.len() as int) - json.len()) as nat),
        bin.len() == 0 ==> spec_parse_glb(spec_glb_bytes(json, bin))->Ok_0.bin is None,
        bin.len() > 0 ==> spec_parse_glb(spec_glb_bytes(json, bin))->Ok_0.bin == Some(
            ChunkMetadata {
                start: (28 + spec_pad4(json.len() as int)) as u32,
                length: spec_pad4(bin.len() as int) as u32,
            },
        ),
        bin.len() > 0 ==> spec_glb_bytes(json, bin).subrange(
            28 + spec_pad4(json.len() as int),
            28 + spec_pad4(json.len() as int) + spec_pad4(bin.len() as int),
        ) == bin + spec_repeat_byte(0u8, (spec_pad4(bin.len() as int) - bin.len()) as nat),
{
    lemma_auto_spec_u32_to_from_le_bytes();
    let jl = json.len() as int;
    let bl = bin.len() as int;
    lemma_padding_law(jl);
    lemma_padding_law(bl);
    let jlen = spec_pad4(jl);
    let blen = spec_pad4(bl);
    let total = spec_glb_total_len(jl, bl);
    let g = spec_glb_bytes(json, bin);
    assert(glb_magic().len() == 4);
    assert(glb_json_tag().len() == 4);
    assert(glb_bin_tag().len() == 4);
    assert(jlen >= 4);
    assert(g.len() == total);
    let n = g.len() as int;
    assert(n >= 24);
    assert(g.subrange(0, 4) =~= glb_magic());
    assert(g.subrange(4, 8) =~= spec_u32_to_le_bytes(2u32));
    assert(spec_read_u32(g, 4) == 2);
    assert(g.subrange(8, 12) =~= spec_u32_to_le_bytes(total as u32));
    assert(spec_read_u32(g, 8) == total as u32);
    assert((total as u32) as int == n);
    assert(total % 4 == 0);
    assert(g.subrange(12, 16) =~= spec_u32_to_le_bytes(jlen as u32));
    assert(spec_read_u32(g, 12) == jlen as u32);
    assert(g.subrange(16, 20) =~= glb_json_tag());
    assert((jlen as u32) as int == jlen);
    assert(jlen <= n - 20);
    assert(jlen % 4 == 0);
    assert(g.subrange(20, 20 + jlen) =~= json + spec_repeat_byte(
        0x20u8,
        (jlen - json.len()) as nat,
    ));
    let remaining = n - 20 - jlen;
    if bin.len() == 0 {
        assert(remaining == 0);
    } else {
        assert(blen >= 4);
        assert(remaining == 8 + blen);
        assert(remaining > 8);
        let bin_chunk_start = 20 + jlen;
        assert(g.subrange(bin_chunk_start, bin_chunk_start + 4) =~= spec_u32_to_le_bytes(
            blen as u32,
        ));
        assert(spec_read_u32(g, bin_chunk_start) == blen as u32);
        assert(g.subrange(bin_chunk_start + 4, bin_chunk_start + 8) =~= glb_bin_tag());
        assert((blen as u32) as int == blen);
        assert(bin_chunk_start + 8 + blen == n);
        assert(blen % 4 == 0);
        assert(g.subrange(bin_chunk_start + 8, bin_chunk_start + 8 + blen) =~= bin
            + spec_repeat_byte(0u8, (blen - bin.len()) as nat));
    }
}

/// A successful validation yields in-bounds payload ranges: a consumer
/// can slice the buffer at the yielded ranges without further checks.
pub proof fn lemma_parse_ranges_in_bounds(b: Seq<u8>)
    requires
        spec_parse_glb(b) is Ok,
    ensures
        spec_parse_glb(b)->Ok_0.json.start + spec_parse_glb(b)->Ok_0.json.length <= b.len(),
        spec_parse_glb(b)->Ok_0.bin is Some ==> spec_parse_glb(b)->Ok_0.bin->Some_0.start
            + spec_parse_glb(b)->Ok_0.bin->Some_0.length <= b.len(),
{
}

/// Appends `n` copies of one byte.
fn push_repeat(out: &mut Vec<u8>, b: u8, n: usize)
    ensures
        final(out)@ == old(out)@ + spec_repeat_byte(b, n as nat),
{
    let mut i: usize = 0;
    while i < n
        invariant
            i <= n,
            out@ == old(out)@ + spec_repeat_byte(b, i as nat),
        decreases n - i,
    {
        out.push(b);
        proof {
            assert(spec_repeat_byte(b, (i + 1) as nat) =~= spec_repeat_byte(b, i as nat).push(b));
        }
        i = i + 1;
    }
}

/// The signature bytes as a vector.
fn magic_vec() -> (r: Vec<u8>)
    ensures
        r@ == glb_magic(),
{
    let mut v: Vec<u8> = Vec::new();
    v.push(0x67);
    v.push(0x6C);
    v.push(0x54);
    v.push(0x46);
    proof {
        assert(v@ =~= glb_magic());
    }
    v
}

/// The text-chunk tag as a vector.
fn json_tag_vec() -> (r: Vec<u8>)
    ensures
        r@ == glb_json_tag(),
{
    let mut v: Vec<u8> = Vec::new();
    v.push(0x4A);
    v.push(0x53);
    v.push(0x4F);
    v.push(0x4E);
    proof {
        assert(v@ =~= glb_json_tag());
    }
    v
}

/// The binary-chunk tag as a vector.
fn bin_tag_vec() -> (r: Vec<u8>)
    ensures
        r@ == glb_bin_tag(),
{
    let mut v: Vec<u8> = Vec::new();
    v.push(0x42);
    v.push(0x49);
    v.push(0x4E);
    v.push(0x00);
    proof {
        assert(v@ =~= glb_bin_tag());
    }
    v
}

/// Serializes the document, frames it with the blob into a container, and
/// appends the container to `buffer`: header, text chunk (space-padded),
/// and, only when the blob is nonempty, the binary chunk (zero-padded).
/// Fails, leaving the buffer untouched, exactly when the container would
/// exceed what its 32-bit length field can declare.
#[verifier::spinoff_prover]
#[verifier::rlimit(100)]
pub fn write_gltf(buffer: &mut Vec<u8>, gltf: GLTF) -> (r: Result<(), ErrorCode>)
    ensures
        r is Ok <==> spec_glb_total_len(
            spec_gltf_json(gltf).len() as int,
            gltf.glb_bin@.len() as int,
        ) <= u32::MAX,
        r is Ok ==> final(buffer)@ == old(buffer)@ + spec_glb_bytes(
            spec_gltf_json(gltf),
            gltf.glb_bin@,
        ),
        r is Err ==> final(buffer)@ == old(buffer)@ && r->Err_0 == ErrorCode::Generation,
{
    let json = gltf_to_json(&gltf);
    let jl: u64 = json.len() as u64;
    let bl: u64 = gltf.glb_bin.len() as u64;
    if jl > 0xFFFF_FFFFu64 || bl > 0xFFFF_FFFFu64 {
        proof {
            lemma_padding_law(jl as int);
            lemma_padding_law(bl as int);
        }
        return Err(ErrorCode::Generation);
    }
    let jpad: u64 = (4 - jl % 4) % 4;
    let jlen: u64 = jl + jpad;
    let bpad: u64 = (4 - bl % 4) % 4;
    let blen: u64 = bl + bpad;
    let total: u64 = if bl > 0 {
        28 + jlen + blen
    } else {
        20 + jlen
    };
    if total > 0xFFFF_FFFFu64 {
        return Err(ErrorCode::Generation);
    }
    let mut piece = magic_vec();
    buffer.append(&mut piece);
    let mut piece = u32_to_le_bytes(2);
    buffer.append(&mut piece);
    let mut piece = u32_to_le_bytes(total as u32);
    buffer.append(&mut piece);
    let mut piece = u32_to_le_bytes(jlen as u32);
    buffer.append(&mut piece);
    let mut piece = json_tag_vec();
    buffer.append(&mut piece);
    let mut json_moved = json;
    buffer.append(&mut json_moved);
    push_repeat(buffer, 0x20, jpad as usize);
    if bl > 0 {
        let mut piece = u32_to_le_bytes(blen as u32);
        buffer.append(&mut piece);
        let mut piece = bin_tag_vec();
        buffer.append(&mut piece);
        let mut g = gltf;
        let mut bin_moved = g.glb_bin;
        buffer.append(&mut bin_moved);
        push_repeat(buffer, 0, bpad as usize);
    }
    proof {
        assert(buffer@ =~= old(buffer)@ + spec_glb_bytes(spec_gltf_json(gltf), gltf.glb_bin@));
    }
    Ok(())
}

/// Reads the little-endian 32-bit field at `off`.
fn read_u32_at(glb: &Vec<u8>, off: usize) -> (x: u32)
    requires
        off + 4 <= glb@.len(),
        glb@.len() <= usize::MAX,
    ensures
        x == spec_read_u32(glb@, off as int),
{
    let s = slice_subrange(glb.as_slice(), off, off + 4);
    u32_from_le_bytes(s)
}

/// Compares four buffer bytes at `off` with the given tag bytes.
fn bytes4_eq(glb: &Vec<u8>, off: usize, p0: u8, p1: u8, p2: u8, p3: u8) -> (r: bool)
    requires
        off + 4 <= glb@.len(),
        glb@.len() <= usize::MAX,
    ensures
        r == (glb@.subrange(off as int, off as int + 4) == seq![p0, p1, p2, p3]),
{
    let r = glb[off] == p0 && glb[off + 1] == p1 && glb[off + 2] == p2 && glb[off + 3] == p3;
    proof {
        let sub = glb@.subrange(off as int, off as int + 4);
        if r {
            assert(sub =~= seq![p0, p1, p2, p3]);
        } else {
            if sub == seq![p0, p1, p2, p3] {
                assert(sub[0] == p0 && sub[1] == p1 && sub[2] == p2 && sub[3] == p3);
                assert(false);
            }
        }
    }
    r
}

impl GLBMetadata {
    /// Validates a byte buffer as a container and yields its payload
    /// ranges, running the checks in the order [`spec_parse_glb`] gives
    /// and reporting the first violated rule with its byte counts.
    #[verifier::spinoff_prover]
    #[verifier::rlimit(100)]
    pub fn from_glb(glb: &Vec<u8>) -> (r: Result<GLBMetadata, ContainerError>)
        ensures
            r == spec_parse_glb(glb@),
    {
        let n = glb.len();
        if n < 24 {
            return Err(ContainerError::TooSmall { actual: n });
        }
        if !bytes4_eq(glb, 0, 0x67, 0x6C, 0x54, 0x46) {
            return Err(
                ContainerError::BadMagic { b0: glb[0], b1: glb[1], b2: glb[2], b3: glb[3] },
            );
        }
        let version = read_u32_at(glb, 4);
        if version != 2 {
            return Err(ContainerError::UnsupportedVersion { version });
        }
        let length = read_u32_at(glb, 8);
        if (length as usize) != n {
            return Err(ContainerError::LengthMismatch { declared: length, actual: n });
        }
        if length % 4 != 0 {
            return Err(ContainerError::LengthNotAligned { length });
        }
        let json_length = read_u32_at(glb, 12);
        if !bytes4_eq(glb, 16, 0x4A, 0x53, 0x4F, 0x4E) {
            return Err(
                ContainerError::FirstChunkNotJson {
                    t0: glb[16],
                    t1: glb[17],
                    t2: glb[18],
                    t3: glb[19],
                },
            );
        }
        if json_length > length - 20 {
            return Err(
                ContainerError::JsonChunkTooLong { declared: json_length, available: length - 20 },
            );
        }
        if json_length % 4 != 0 {
            return Err(ContainerError::JsonChunkNotAligned { length: json_length });
        }
        let remaining = length - 20 - json_length;
        if 0 < remaining && remaining < 8 {
            return Err(ContainerError::TruncatedChunk { remaining });
        }
        if remaining <= 8 {
            return Ok(
                GLBMetadata { json: ChunkMetadata { start: 20, length: json_length }, bin: None },
            );
        }
        let bin_chunk_start = 20 + json_length;
        let bin_length = read_u32_at(glb, bin_chunk_start as usize);
        let bin_data_start = bin_chunk_start + 8;
        if !bytes4_eq(glb, (bin_chunk_start + 4) as usize, 0x42, 0x49, 0x4E, 0x00) {
            return Err(
                ContainerError::SecondChunkNotBin {
                    t0: glb[(bin_chunk_start + 4) as usize],
                    t1: glb[(bin_chunk_start + 5) as usize],
                    t2: glb[(bin_chunk_start + 6) as usize],
                    t3: glb[(bin_chunk_start + 7) as usize],
                },
            );
        }
        if (bin_data_start as u64) + (bin_length as u64) > (length as u64) {
            return Err(
                ContainerError::BinChunkTooLong {
                    declared: bin_length,
                    available: length - bin_data_start,
                },
            );
        }
        if bin_length % 4 != 0 {
            return Err(ContainerError::BinChunkNotAligned { length: bin_length });
        }
        if bin_data_start + bin_length < length {
            return Err(
                ContainerError::TrailingBytes { extra: length - bin_data_start - bin_length },
            );
        }
        Ok(
            GLBMetadata {
                json: ChunkMetadata { start: 20, length: json_length },
                bin: Some(ChunkMetadata { start: bin_data_start, length: bin_length }),
            },
        )
    }
}

} // verus!
