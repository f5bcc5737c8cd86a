use emg::document::GLTF;
use emg::error::ContainerError;
use emg::error::ErrorCode;
use emg::glb::GLBMetadata;
use emg::glb::write_gltf;
use emg::json::gltf_to_json;

/// A header plus text-chunk header with the given fields, padded with
/// spaces up to `actual_len` bytes.
fn crafted(magic: &[u8; 4], version: u32, declared: u32, json_len: u32, tag: &[u8; 4], actual_len: usize) -> Vec<u8> {
    let mut b = Vec::new();
    b.extend_from_slice(magic);
    b.extend_from_slice(&version.to_le_bytes());
    b.extend_from_slice(&declared.to_le_bytes());
    b.extend_from_slice(&json_len.to_le_bytes());
    b.extend_from_slice(tag);
    while b.len() < actual_len {
        b.push(0x20);
    }
    b
}

#[test]
fn round_trip_recovers_document_and_blob() {
    let mut gltf = GLTF::new();
    gltf.glb_bin = vec![1, 2, 3, 4, 5];
    gltf.buffers[0].byte_length = 5;
    let json = gltf_to_json(&gltf);
    let blob = gltf.glb_bin.clone();
    let mut out = Vec::new();
    assert!(write_gltf(&mut out, gltf).is_ok());

    let meta = GLBMetadata::from_glb(&out).expect("writer output must validate");
    assert_eq!(meta.json.start, 20);
    let js = meta.json.start as usize;
    let jl = meta.json.length as usize;
    let mut expected_json = json.clone();
    while expected_json.len() % 4 != 0 {
        expected_json.push(0x20);
    }
    assert_eq!(&out[js..js + jl], &expected_json[..]);

    let bin = meta.bin.expect("a nonempty blob must yield a binary chunk");
    let bs = bin.start as usize;
    let bl = bin.length as usize;
    let mut expected_bin = blob.clone();
    while expected_bin.len() % 4 != 0 {
        expected_bin.push(0);
    }
    assert_eq!(&out[bs..bs + bl], &expected_bin[..]);

    // stripping the padding recovers the payloads exactly
    assert_eq!(&out[js..js + json.len()], &json[..]);
    assert_eq!(&out[bs..bs + blob.len()], &blob[..]);
}

#[test]
fn empty_blob_writes_no_binary_chunk() {
    let gltf = GLTF::new();
    let json = gltf_to_json(&gltf);
    let mut out = Vec::new();
    assert!(write_gltf(&mut out, gltf).is_ok());
    let meta = GLBMetadata::from_glb(&out).unwrap();
    assert!(meta.bin.is_none());
    let padded = (json.len() + 3) / 4 * 4;
    assert_eq!(out.len(), 20 + padded);
}

#[test]
fn total_length_is_a_multiple_of_four() {
    let gltf = GLTF::new();
    let mut out = Vec::new();
    assert!(write_gltf(&mut out, gltf).is_ok());
    assert_eq!(out.len() % 4, 0);
}

#[test]
fn too_small_buffer_is_rejected() {
    let b = vec![0u8; 10];
    assert_eq!(
        GLBMetadata::from_glb(&b),
        Err(ContainerError::TooSmall { actual: 10 })
    );
}

#[test]
fn bad_magic_is_rejected() {
    let b = crafted(b"glXF", 2, 24, 4, b"JSON", 24);
    assert_eq!(
        GLBMetadata::from_glb(&b),
        Err(ContainerError::BadMagic { b0: 0x67, b1: 0x6C, b2: 0x58, b3: 0x46 })
    );
}

#[test]
fn unsupported_version_is_rejected() {
    let b = crafted(b"glTF", 1, 24, 4, b"JSON", 24);
    assert_eq!(
        GLBMetadata::from_glb(&b),
        Err(ContainerError::UnsupportedVersion { version: 1 })
    );
}

#[test]
fn scenario_declared_one_hundred_actual_ninety_six() {
    // a header declaring 100 bytes over a 96-byte buffer is rejected
    // with the length-mismatch diagnosis, never truncated or padded
    let b = crafted(b"glTF", 2, 100, 72, b"JSON", 96);
    assert_eq!(
        GLBMetadata::from_glb(&b),
        Err(ContainerError::LengthMismatch { declared: 100, actual: 96 })
    );
}

#[test]
fn unaligned_total_length_is_rejected() {
    let b = crafted(b"glTF", 2, 26, 4, b"JSON", 26);
    assert_eq!(
        GLBMetadata::from_glb(&b),
        Err(ContainerError::LengthNotAligned { length: 26 })
    );
}

#[test]
fn first_chunk_must_be_json() {
    let b = crafted(b"glTF", 2, 24, 4, b"BIN\0", 24);
    assert_eq!(
        GLBMetadata::from_glb(&b),
        Err(ContainerError::FirstChunkNotJson { t0: 0x42, t1: 0x49, t2: 0x4E, t3: 0x00 })
    );
}

#[test]
fn json_chunk_longer_than_room_is_rejected() {
    let b = crafted(b"glTF", 2, 24, 8, b"JSON", 24);
    assert_eq!(
        GLBMetadata::from_glb(&b),
        Err(ContainerError::JsonChunkTooLong { declared: 8, available: 4 })
    );
}

#[test]
fn unaligned_json_chunk_is_rejected() {
    let b = crafted(b"glTF", 2, 28, 2, b"JSON", 28);
    assert_eq!(
        GLBMetadata::from_glb(&b),
        Err(ContainerError::JsonChunkNotAligned { length: 2 })
    );
}

#[test]
fn short_gap_after_json_chunk_is_rejected() {
    let b = crafted(b"glTF", 2, 28, 4, b"JSON", 28);
    assert_eq!(
        GLBMetadata::from_glb(&b),
        Err(ContainerError::TruncatedChunk { remaining: 4 })
    );
}

#[test]
fn second_chunk_must_be_bin() {
    let mut b = crafted(b"glTF", 2, 36, 4, b"JSON", 24);
    b.extend_from_slice(&4u32.to_le_bytes());
    b.extend_from_slice(b"XTRA");
    b.extend_from_slice(&[0, 0, 0, 0]);
    assert_eq!(
        GLBMetadata::from_glb(&b),
        Err(ContainerError::SecondChunkNotBin { t0: 0x58, t1: 0x54, t2: 0x52, t3: 0x41 })
    );
}

#[test]
fn bin_chunk_longer_than_room_is_rejected() {
    let mut b = crafted(b"glTF", 2, 36, 4, b"JSON", 24);
    b.extend_from_slice(&8u32.to_le_bytes());
    b.extend_from_slice(b"BIN\0");
    b.extend_from_slice(&[0, 0, 0, 0]);
    assert_eq!(
        GLBMetadata::from_glb(&b),
        Err(ContainerError::BinChunkTooLong { declared: 8, available: 4 })
    );
}

#[test]
fn unaligned_bin_chunk_is_rejected() {
    let mut b = crafted(b"glTF", 2, 36, 4, b"JSON", 24);
    b.extend_from_slice(&2u32.to_le_bytes());
    b.extend_from_slice(b"BIN\0");
    b.extend_from_slice(&[0, 0, 0, 0]);
    assert_eq!(
        GLBMetadata::from_glb(&b),
        Err(ContainerError::BinChunkNotAligned { length: 2 })
    );
}

#[test]
fn trailing_bytes_after_bin_chunk_are_rejected() {
    let mut b = crafted(b"glTF", 2, 36, 4, b"JSON", 24);
    b.extend_from_slice(&0u32.to_le_bytes());
    b.extend_from_slice(b"BIN\0");
    b.extend_from_slice(&[0, 0, 0, 0]);
    assert_eq!(
        GLBMetadata::from_glb(&b),
        Err(ContainerError::TrailingBytes { extra: 4 })
    );
}

#[test]
fn valid_bin_chunk_parses() {
    let mut b = crafted(b"glTF", 2, 36, 4, b"JSON", 24);
    b.extend_from_slice(&4u32.to_le_bytes());
    b.extend_from_slice(b"BIN\0");
    b.extend_from_slice(&[7, 8, 9, 10]);
    let meta = GLBMetadata::from_glb(&b).unwrap();
    assert_eq!(meta.json.start, 20);
    assert_eq!(meta.json.length, 4);
    let bin = meta.bin.unwrap();
    assert_eq!(bin.start, 32);
    assert_eq!(bin.length, 4);
}

#[test]
fn exactly_eight_leftover_bytes_yield_no_second_chunk() {
    // room for a bare chunk header and nothing more is tolerated and
    // ignored, matching the reader's second-chunk threshold
    let b = crafted(b"glTF", 2, 32, 4, b"JSON", 32);
    let meta = GLBMetadata::from_glb(&b).unwrap();
    assert!(meta.bin.is_none());
}

#[test]
fn container_error_codes_map_to_the_taxonomy() {
    assert_eq!(ContainerError::TooSmall { actual: 0 }.error_code(), ErrorCode::OutputNotGLB);
    assert_eq!(
        ContainerError::UnsupportedVersion { version: 3 }.error_code(),
        ErrorCode::NotImplemented
    );
    assert_eq!(ContainerError::TrailingBytes { extra: 4 }.error_code(), ErrorCode::NotImplemented);
    assert_eq!(
        ContainerError::LengthMismatch { declared: 1, actual: 2 }.error_code(),
        ErrorCode::OutputNotGLB
    );
    assert_eq!(ErrorCode::OutputNotGLB.code(), 12);
    assert_eq!(ErrorCode::NotImplemented.code(), 3);
    assert_eq!(ErrorCode::Mutex.code(), 1);
    assert_eq!(ErrorCode::ModelGeneratorNotFound.code(), 8);
    assert_eq!(ErrorCode::ParameterCount.code(), 9);
    assert_eq!(ErrorCode::ParameterType.code(), 10);
}

#[test]
fn padding_law_on_concrete_lengths() {
    // pad(L) = L + ((4 - L % 4) % 4): a multiple of four, at most three over
    for (l, p) in [(0u32, 0u32), (1, 4), (2, 4), (3, 4), (4, 4), (5, 8), (93, 96)] {
        let pad = l + ((4 - l % 4) % 4);
        assert_eq!(pad, p);
        assert_eq!(pad % 4, 0);
        assert!(pad >= l && pad - l <= 3);
    }
}

#[test]
fn end_to_end_pipeline_yields_the_expected_scene_description() {
    // build a transformed cube, pack it, frame the container, then
    // re-validate and re-parse it the way the host does
    let mut g = emg::geometry::Geometry::cube();
    let positions: Vec<emg::geometry::Vertex> = g
        .vertices
        .iter()
        .map(|v| emg::geometry::Vertex {
            x: (((f32::from_bits(v.x) as f64) * 1.0) as f32).to_bits(),
            y: ((((f32::from_bits(v.y) as f64) * 0.25) as f32 as f64 + -0.75) as f32).to_bits(),
            z: ((((f32::from_bits(v.z) as f64) * 0.3) as f32 as f64 + 4.1) as f32).to_bits(),
        })
        .collect();
    g.set_vertex_positions(positions);

    let mut gltf = GLTF::new();
    let (bmin, bmax) = g.bounds();
    let text = |bits: u32| serde_json::to_string(&f32::from_bits(bits)).unwrap().into_bytes();
    let min_text = vec![text(bmin.x), text(bmin.y), text(bmin.z)];
    let max_text = vec![text(bmax.x), text(bmax.y), text(bmax.z)];
    let nverts = g.vertices.len() as u32;
    let ntris = g.triangles.len() as u32;
    g.pack(&mut gltf, min_text, max_text);

    let mut container = Vec::new();
    assert!(write_gltf(&mut container, gltf).is_ok());

    let meta = GLBMetadata::from_glb(&container).unwrap();
    let json_range = meta.json.start as usize..(meta.json.start + meta.json.length) as usize;
    let parsed: serde_json::Value = serde_json::from_slice(&container[json_range]).unwrap();
    assert_eq!(parsed["accessors"][0]["count"], nverts);
    let expected_min = serde_json::Value::Array(vec![
        serde_json::Value::from(-1.0),
        serde_json::Value::from(-1.0),
        serde_json::Value::from(3.8),
    ]);
    assert_eq!(parsed["accessors"][0]["min"], expected_min);
    assert_eq!(parsed["accessors"][1]["count"], 3 * ntris);
    assert_eq!(parsed["accessors"][1]["componentType"], 5123);
    assert_eq!(parsed["bufferViews"][0]["target"], 34962);
    assert_eq!(parsed["bufferViews"][1]["target"], 34963);
    assert_eq!(parsed["buffers"][0]["byteLength"], 8 * 12 + 12 * 6);

    let bin = meta.bin.unwrap();
    assert_eq!(bin.length as usize, 8 * 12 + 12 * 6);
}
