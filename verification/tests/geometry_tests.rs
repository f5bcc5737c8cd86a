use emg::geometry::Geometry;
use emg::geometry::Triangle;
use emg::geometry::Vertex;

fn vx(x: f32, y: f32, z: f32) -> Vertex {
    Vertex { x: x.to_bits(), y: y.to_bits(), z: z.to_bits() }
}

fn tri(a: u32, b: u32, c: u32) -> Triangle {
    Triangle { a, b, c }
}

/// Mirrors the host-side elementwise transform: widen each stored
/// single-precision coordinate, apply the double-precision op, narrow
/// back, and hand the positions to the kernel.
fn scale(g: &mut Geometry, sx: f64, sy: f64, sz: f64) {
    let positions: Vec<Vertex> = g
        .vertices
        .iter()
        .map(|v| {
            vx(
                ((f32::from_bits(v.x) as f64) * sx) as f32,
                ((f32::from_bits(v.y) as f64) * sy) as f32,
                ((f32::from_bits(v.z) as f64) * sz) as f32,
            )
        })
        .collect();
    g.set_vertex_positions(positions);
}

fn translate(g: &mut Geometry, tx: f64, ty: f64, tz: f64) {
    let positions: Vec<Vertex> = g
        .vertices
        .iter()
        .map(|v| {
            vx(
                ((f32::from_bits(v.x) as f64) + tx) as f32,
                ((f32::from_bits(v.y) as f64) + ty) as f32,
                ((f32::from_bits(v.z) as f64) + tz) as f32,
            )
        })
        .collect();
    g.set_vertex_positions(positions);
}

#[test]
fn cube_has_eight_vertices_and_twelve_triangles() {
    let g = Geometry::cube();
    assert_eq!(g.vertices.len(), 8);
    assert_eq!(g.triangles.len(), 12);
    assert!(g.check_wf());
    assert_eq!(g.vertices[0], vx(-1.0, 1.0, -1.0));
    assert_eq!(g.vertices[7], vx(1.0, -1.0, 1.0));
    assert_eq!(g.triangles[0], tri(1, 3, 5));
    assert_eq!(g.triangles[11], tri(2, 4, 6));
}

#[test]
fn select_vertices_is_strict_and_ordered() {
    let g = Geometry::cube();
    // a box around the z = -1 face, widened past the face itself
    let lower = vx(-1.5, -1.5, -1.5);
    let upper = vx(1.5, 1.5, 0.0);
    let picked = g.select_vertices(lower, upper);
    assert_eq!(picked, vec![0, 2, 4, 6]);
    // strictness: a box whose face passes exactly through x = 1 keeps
    // those vertices out
    let picked = g.select_vertices(vx(-1.5, -1.5, -1.5), vx(1.0, 1.5, 1.5));
    assert_eq!(picked, vec![0, 1, 2, 3]);
}

#[test]
fn delete_vertex_swaps_compacts_and_rewrites() {
    let mut g = Geometry::cube();
    g.delete_vertex(0);
    assert_eq!(g.vertices.len(), 7);
    // the last vertex moved into the freed slot
    assert_eq!(g.vertices[0], vx(1.0, -1.0, 1.0));
    // triangles referencing vertex 0 are gone; references to the
    // relocated vertex 7 now point at slot 0; order is kept
    let expected = vec![
        tri(1, 3, 5),
        tri(3, 0, 5),
        tri(4, 5, 6),
        tri(5, 0, 6),
        tri(1, 2, 3),
        tri(1, 5, 4),
        tri(2, 6, 3),
        tri(3, 6, 0),
        tri(2, 4, 6),
    ];
    assert_eq!(g.triangles, expected);
    assert!(g.check_wf());
}

#[test]
fn deletion_sequences_keep_indices_valid() {
    // a descending-order mixed deletion run; after every step every
    // remaining triangle references live vertices only
    let mut g = Geometry::cube();
    g.delete_triangle(11);
    assert!(g.check_wf());
    g.delete_vertex(7);
    assert!(g.check_wf());
    g.delete_vertex(3);
    assert!(g.check_wf());
    g.delete_triangle(0);
    assert!(g.check_wf());
    let mut g2 = Geometry::cube();
    g2.delete_vertices(&vec![6, 2, 0]);
    assert!(g2.check_wf());
    assert_eq!(g2.vertices.len(), 5);
}

#[test]
fn scenario_two_bottom_triangles_removed() {
    // a second scaled and translated cube; a box covering only its
    // lower half selects exactly the two bottom triangles
    let mut g = Geometry::cube();
    scale(&mut g, 1.0, 0.25, 0.3);
    translate(&mut g, 0.0, -0.75, 4.1);
    let lower = vx(-2.0, -2.0, 3.0);
    let upper = vx(2.0, 0.0, 4.1);
    let picked = g.select_triangles(lower, upper);
    assert_eq!(picked.len(), 2);
    assert_eq!(picked, vec![10, 11]);
    g.delete_triangles(&picked);
    assert_eq!(g.triangles.len(), 10);
    assert!(g.check_wf());
}

#[test]
fn delete_stray_vertices_removes_unreferenced_only() {
    let mut g = Geometry::cube();
    g.vertices.push(vx(9.0, 9.0, 9.0));
    g.vertices.push(vx(-9.0, 9.0, 9.0));
    assert!(g.check_wf());
    g.delete_stray_vertices();
    assert_eq!(g.vertices.len(), 8);
    assert_eq!(g.triangles.len(), 12);
    assert!(g.check_wf());
    for v in 0..g.vertices.len() {
        assert!(g.vertex_referenced(v as u32));
    }
}

#[test]
fn triangles_raw_uses_two_byte_indices_for_small_meshes() {
    let g = Geometry::cube();
    let raw = g.triangles_raw();
    assert_eq!(raw.len(), 12 * 6);
    // first triangle (1, 3, 5) little-endian, two bytes each
    assert_eq!(&raw[0..6], &[1, 0, 3, 0, 5, 0]);
}

#[test]
fn triangles_raw_switches_to_four_byte_indices_at_sixty_four_ki_vertices() {
    let mut vertices = Vec::new();
    for _ in 0..0x10000 {
        vertices.push(vx(0.0, 0.0, 0.0));
    }
    let g = Geometry { vertices, triangles: vec![tri(0, 1, 0xFFFF)] };
    assert!(g.check_wf());
    let raw = g.triangles_raw();
    assert_eq!(raw, vec![0, 0, 0, 0, 1, 0, 0, 0, 0xFF, 0xFF, 0, 0]);
}

#[test]
fn vertices_raw_is_little_endian_coordinate_patterns() {
    let g = Geometry { vertices: vec![vx(1.0, -1.0, 0.5)], triangles: vec![] };
    let raw = g.vertices_raw();
    let mut expected = Vec::new();
    expected.extend_from_slice(&1.0f32.to_bits().to_le_bytes());
    expected.extend_from_slice(&(-1.0f32).to_bits().to_le_bytes());
    expected.extend_from_slice(&0.5f32.to_bits().to_le_bytes());
    assert_eq!(raw, expected);
}

#[test]
fn bounds_reduce_over_floating_point_order() {
    let g = Geometry {
        vertices: vec![vx(-3.0, 2.0, 0.25), vx(1.5, -7.0, 0.125)],
        triangles: vec![],
    };
    let (bmin, bmax) = g.bounds();
    assert_eq!(bmin, vx(-3.0, -7.0, 0.125));
    assert_eq!(bmax, vx(1.5, 2.0, 0.25));
}
