use emg::Real;
use emg::Real32;
use emg::document::Accessor;
use emg::document::AlphaMode;
use emg::document::Buffer;
use emg::document::BufferView;
use emg::document::ComponentType;
use emg::document::GLTF;
use emg::document::Material;
use emg::document::Mesh;
use emg::document::MeshPrimitive;
use emg::document::Mode;
use emg::document::Node;
use emg::document::Scene;
use emg::document::Target;
use emg::document::Type;
use emg::geometry::Geometry;
use emg::geometry::Vertex;
use emg::json::gltf_to_json;

/// Renders a double the way the reference serializer would.
fn num(v: f64) -> Real {
    Real::new(v.to_bits(), serde_json::to_string(&v).unwrap().into_bytes())
}

fn f32_text(bits: u32) -> Vec<u8> {
    serde_json::to_string(&f32::from_bits(bits)).unwrap().into_bytes()
}

#[test]
fn default_document_serializes_to_the_minimal_form() {
    let gltf = GLTF::new();
    let out = gltf_to_json(&gltf);
    assert_eq!(
        String::from_utf8(out).unwrap(),
        "{\"asset\":{\"generator\":\"emg v0.1.0\",\"version\":\"2.0\",\"minVersion\":\"2.0\"},\
         \"buffers\":[{\"byteLength\":0}]}"
    );
}

#[test]
fn default_transform_components_are_omitted() {
    let mut gltf = GLTF::new();
    let mut node = Node::new();
    node.name = b"pivot".to_vec();
    node.mesh = Some(0);
    gltf.nodes.push(node);
    let mut node2 = Node::new();
    node2.t.z = num(4.1);
    node2.s.y = num(0.25);
    gltf.nodes.push(node2);
    let out = String::from_utf8(gltf_to_json(&gltf)).unwrap();
    assert!(out.contains("\"nodes\":[{\"name\":\"pivot\",\"mesh\":0},\
        {\"translation\":[0.0,0.0,4.1],\"scale\":[1.0,0.25,1.0]}]"));
    assert!(!out.contains("rotation"));
}

#[test]
fn material_defaults_are_field_specific() {
    let mut gltf = GLTF::new();
    let mut m = Material::new();
    m.alpha_cutoff = num(0.5);
    m.pbr_metallic_roughness.metallic_factor = num(1.0);
    gltf.materials.push(m);
    let out = String::from_utf8(gltf_to_json(&gltf)).unwrap();
    // every field at its default: only the mandatory nested object remains
    assert!(out.contains("\"materials\":[{\"pbrMetallicRoughness\":{}}]"));

    let mut gltf2 = GLTF::new();
    let mut m2 = Material::new();
    m2.alpha_mode = AlphaMode::BLEND;
    m2.alpha_cutoff = num(0.25);
    m2.double_sided = true;
    m2.pbr_metallic_roughness.roughness_factor = num(0.5);
    gltf2.materials.push(m2);
    let out2 = String::from_utf8(gltf_to_json(&gltf2)).unwrap();
    assert!(out2.contains(
        "\"materials\":[{\"alphaMode\":\"BLEND\",\"alphaCutoff\":0.25,\"doubleSided\":true,\
         \"pbrMetallicRoughness\":{\"roughnessFactor\":0.5}}]"
    ));
}

#[test]
fn string_escaping_matches_the_reference_serializer() {
    let mut gltf = GLTF::new();
    let mut scene = Scene::new();
    scene.name = "a\"b\\c\nd\te\u{1f}f".as_bytes().to_vec();
    scene.nodes.push(0);
    gltf.scenes.push(scene);
    let out = String::from_utf8(gltf_to_json(&gltf)).unwrap();
    let reference = serde_json::to_string("a\"b\\c\nd\te\u{1f}f").unwrap();
    assert!(out.contains(&format!("\"name\":{},\"nodes\":[0]", reference)));
}

#[test]
fn serialized_output_parses_as_json() {
    let mut gltf = GLTF::new();
    gltf.scene = Some(0);
    let mut scene = Scene::new();
    scene.nodes = vec![0, 1, 2];
    gltf.scenes.push(scene);
    let mut mesh = Mesh::new();
    let mut prim = MeshPrimitive::new();
    prim.attributes.position = Some(0);
    prim.indices = Some(1);
    prim.mode = Mode::Points;
    mesh.primitives.push(prim);
    mesh.weights = vec![num(0.5), num(1.5)];
    gltf.meshes.push(mesh);
    let mut acc = Accessor::new();
    acc.buffer_view = Some(0);
    acc.component_type = ComponentType::Float;
    acc.type_ = Type::VEC3;
    acc.count = 8;
    acc.normalized = true;
    acc.byte_offset = 16;
    acc.min = vec![Real32::new(3.8f32.to_bits(), f32_text(3.8f32.to_bits()))];
    gltf.accessors.push(acc);
    let mut bv = BufferView::new();
    bv.byte_length = 96;
    bv.target = Some(Target::ElementArrayBuffer);
    bv.byte_stride = Some(12);
    gltf.buffer_views.push(bv);
    let mut buf = Buffer::new();
    buf.byte_length = 96;
    buf.uri = b"data:application/octet-stream;base64,".to_vec();
    gltf.buffers = vec![buf];

    let out = gltf_to_json(&gltf);
    let parsed: serde_json::Value = serde_json::from_slice(&out).unwrap();
    assert_eq!(parsed["scene"], 0);
    assert_eq!(parsed["scenes"][0]["nodes"][2], 2);
    assert_eq!(parsed["meshes"][0]["primitives"][0]["mode"], 0);
    assert_eq!(parsed["meshes"][0]["weights"][1], 1.5);
    assert_eq!(parsed["accessors"][0]["componentType"], 5126);
    assert_eq!(parsed["accessors"][0]["type"], "VEC3");
    assert_eq!(parsed["accessors"][0]["normalized"], true);
    assert_eq!(parsed["accessors"][0]["byteOffset"], 16);
    assert_eq!(parsed["accessors"][0]["min"][0], 3.8);
    assert_eq!(parsed["bufferViews"][0]["target"], 34963);
    assert_eq!(parsed["bufferViews"][0]["byteStride"], 12);
    assert_eq!(parsed["buffers"][0]["byteLength"], 96);
}

#[test]
fn packer_byte_length_and_count_follow_the_arithmetic() {
    // N elements of S bytes each: the view spans N * S bytes and the
    // accessor counts N
    let mut gltf = GLTF::new();
    let data = vec![0u8; 24];
    gltf.append_to_glb_bin(data, Type::VEC3, ComponentType::Float);
    assert_eq!(gltf.buffer_views.len(), 1);
    assert_eq!(gltf.buffer_views[0].byte_length, 24);
    assert_eq!(gltf.buffer_views[0].byte_offset, 0);
    assert_eq!(gltf.accessors[0].count, 2);
    assert_eq!(gltf.buffers[0].byte_length, 24);

    let data2 = vec![0u8; 6];
    gltf.append_to_glb_bin(data2, Type::SCALAR, ComponentType::UnsignedShort);
    assert_eq!(gltf.buffer_views[1].byte_offset, 24);
    assert_eq!(gltf.buffer_views[1].byte_length, 6);
    assert_eq!(gltf.accessors[1].count, 3);
    assert_eq!(gltf.glb_bin.len(), 30);
    assert_eq!(gltf.buffers[0].byte_length, 30);
}

/// The host-side transform steps, as in the geometry tests: widen,
/// apply the double-precision op, narrow, one op at a time.
fn transformed_cube() -> Geometry {
    let mut g = Geometry::cube();
    let scaled: Vec<Vertex> = g
        .vertices
        .iter()
        .map(|v| Vertex {
            x: (((f32::from_bits(v.x) as f64) * 1.0) as f32).to_bits(),
            y: (((f32::from_bits(v.y) as f64) * 0.25) as f32).to_bits(),
            z: (((f32::from_bits(v.z) as f64) * 0.3) as f32).to_bits(),
        })
        .collect();
    g.set_vertex_positions(scaled);
    let translated: Vec<Vertex> = g
        .vertices
        .iter()
        .map(|v| Vertex {
            x: (((f32::from_bits(v.x) as f64) + 0.0) as f32).to_bits(),
            y: (((f32::from_bits(v.y) as f64) + -0.75) as f32).to_bits(),
            z: (((f32::from_bits(v.z) as f64) + 4.1) as f32).to_bits(),
        })
        .collect();
    g.set_vertex_positions(translated);
    g
}

#[test]
fn scenario_packed_cube_bounds() {
    // cube, scale (1, 0.25, 0.3), translate (0, -0.75, 4.1), pack:
    // the position accessor's bounds are (-1, -1, 3.8) and (1, -0.5, 4.4)
    let g = transformed_cube();
    let mut gltf = GLTF::new();
    let (bmin, bmax) = g.bounds();
    let min_text = vec![f32_text(bmin.x), f32_text(bmin.y), f32_text(bmin.z)];
    let max_text = vec![f32_text(bmax.x), f32_text(bmax.y), f32_text(bmax.z)];
    g.pack(&mut gltf, min_text, max_text);

    assert_eq!(gltf.accessors.len(), 2);
    let pos = &gltf.accessors[0];
    assert_eq!(pos.count, 8);
    let min: Vec<f32> = pos.min.iter().map(|r| f32::from_bits(r.bits)).collect();
    let max: Vec<f32> = pos.max.iter().map(|r| f32::from_bits(r.bits)).collect();
    assert_eq!(min, vec![-1.0f32, -1.0, 3.8]);
    assert_eq!(max, vec![1.0f32, -0.5, 4.4]);
    assert_eq!(
        String::from_utf8(pos.min[2].text.clone()).unwrap(),
        "3.8"
    );
    assert_eq!(gltf.buffer_views[0].target, Some(Target::ArrayBuffer));
    assert_eq!(gltf.buffer_views[1].target, Some(Target::ElementArrayBuffer));
    assert_eq!(gltf.accessors[1].component_type, ComponentType::UnsignedShort);
    assert_eq!(gltf.accessors[1].count, 36);
    assert_eq!(gltf.glb_bin.len(), 8 * 12 + 12 * 6);
    assert_eq!(gltf.buffers[0].byte_length as usize, gltf.glb_bin.len());
}
