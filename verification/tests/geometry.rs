use rasterizer::{Barycentric, Camera, Color, Mesh, RefFrame, Tri, Vec2i, Vec3i, Vert, TRIG_ONE};

fn screen_tri(a: (i32, i32, i32), b: (i32, i32, i32), c: (i32, i32, i32)) -> Tri {
    Tri::cons(Vec3i::cons(a.0, a.1, a.2), Vec3i::cons(b.0, b.1, b.2), Vec3i::cons(c.0, c.1, c.2))
}

#[test]
fn triangle_from_positions_has_red_green_blue_corners() {
    let t = screen_tri((1, 2, 3), (4, 5, 6), (7, 8, 9));
    assert_eq!(t.a.color, Color::cons(255, 0, 0));
    assert_eq!(t.b.color, Color::cons(0, 255, 0));
    assert_eq!(t.c.color, Color::cons(0, 0, 255));
    assert_eq!(t.a.texpos, Vec2i::cons(0, 0));
    assert_eq!(t.get_color_red(), Vec3i::cons(255, 0, 0));
    assert_eq!(t.get_color_green(), Vec3i::cons(0, 255, 0));
    assert_eq!(t.get_color_blue(), Vec3i::cons(0, 0, 255));
}

#[test]
fn triangle_from_corners_keeps_them() {
    let a = Vert::cons(Vec3i::cons(1, 2, 3), Color::cons(9, 8, 7), Vec2i::cons(5, 6));
    let t = Tri::cons_verts(a, a, a);
    assert_eq!(t.b, a);
    assert_eq!(t.c.texpos, Vec2i::cons(5, 6));
}

#[test]
fn weights_at_the_corners_are_one_and_nothing() {
    let t = screen_tri((3, 20, 0), (17, 9, 0), (5, 1, 0));
    let bary = Barycentric::cons(&t).unwrap();
    let at_a = bary.weights(3, 20);
    let at_b = bary.weights(17, 9);
    let at_c = bary.weights(5, 1);
    let den = at_a.den;
    assert_ne!(den, 0);
    assert_eq!((at_a.w1, at_a.w2, at_a.w3), (den, 0, 0));
    assert_eq!((at_b.w1, at_b.w2, at_b.w3), (0, den, 0));
    assert_eq!((at_c.w1, at_c.w2, at_c.w3), (0, 0, den));
}

#[test]
fn weights_follow_their_formula() {
    // a = (0, 4), b = (4, 0), c = (0, 0): den = (0 - 0) * (0 - 0) + (0 - 4) * (4 - 0) = -16.
    let t = screen_tri((0, 4, 0), (4, 0, 0), (0, 0, 0));
    let bary = Barycentric::cons(&t).unwrap();
    let w = bary.weights(1, 2);
    assert_eq!(w.den, -16);
    // w1 = (0 - 0) * (1 - 0) + (0 - 4) * (2 - 0) = -8
    assert_eq!(w.w1, -8);
    // w2 = (0 - 4) * (1 - 0) + (0 - 0) * (2 - 0) = -4
    assert_eq!(w.w2, -4);
    assert_eq!(w.w3, -4);
    assert_eq!(w.w1 + w.w2 + w.w3, w.den);
}

#[test]
fn weights_sum_to_the_whole_everywhere() {
    let t = screen_tri((-7, 30, 0), (40, 12, 0), (2, -9, 0));
    let bary = Barycentric::cons(&t).unwrap();
    for y in -20..40 {
        for x in -20..50 {
            let w = bary.weights(x, y);
            assert_eq!(w.w1 + w.w2 + w.w3, w.den);
        }
    }
}

#[test]
fn triangle_without_area_has_no_interpolator() {
    assert!(Barycentric::cons(&screen_tri((0, 0, 0), (1, 1, 0), (2, 2, 0))).is_none());
    assert!(Barycentric::cons(&screen_tri((5, 5, 0), (5, 5, 0), (5, 5, 0))).is_none());
    assert!(Barycentric::cons(&screen_tri((0, 3, 1), (9, 3, 2), (4, 3, 3))).is_none());
}

#[test]
fn weights_of_the_widest_triangle_do_not_overflow() {
    let t = screen_tri((i32::MIN, i32::MAX, 0), (i32::MAX, 0, 0), (i32::MIN, i32::MIN, 0));
    let bary = Barycentric::cons(&t).unwrap();
    let w = bary.weights(i32::MAX, i32::MAX);
    assert_eq!(w.w1 + w.w2 + w.w3, w.den);
    let d = t.interpolate_depth(&w);
    assert_eq!(d, 0);
}

#[test]
fn depth_is_the_weighted_mean_rounded_down() {
    let t = screen_tri((0, 4, 10), (4, 0, 20), (0, 0, 40));
    let bary = Barycentric::cons(&t).unwrap();
    assert_eq!(t.interpolate_depth(&bary.weights(0, 4)), 10);
    assert_eq!(t.interpolate_depth(&bary.weights(4, 0)), 20);
    assert_eq!(t.interpolate_depth(&bary.weights(0, 0)), 40);
    // At (1, 2): weights 8/16, 4/16, 4/16, depth 5 + 5 + 10.
    assert_eq!(t.interpolate_depth(&bary.weights(1, 2)), 20);
    // At (1, 1): weights 4/16, 4/16, 8/16, depth 2.5 + 5 + 20 = 27.5.
    assert_eq!(t.interpolate_depth(&bary.weights(1, 1)), 27);
}

#[test]
fn depth_rounds_down_below_zero_too() {
    let t = screen_tri((0, 4, -10), (4, 0, -20), (0, 0, -40));
    let bary = Barycentric::cons(&t).unwrap();
    assert_eq!(t.interpolate_depth(&bary.weights(1, 1)), -28);
}

#[test]
fn colour_blend_is_held_to_the_channel() {
    let t = screen_tri((0, 4, 0), (4, 0, 0), (0, 0, 0));
    let bary = Barycentric::cons(&t).unwrap();
    assert_eq!(t.interpolate_color(&bary.weights(0, 4)), Color::cons(255, 0, 0));
    assert_eq!(t.interpolate_color(&bary.weights(1, 2)), Color::cons(127, 63, 63));
    // Far outside the triangle the weights leave [0, 1]; no channel wraps.
    let c = t.interpolate_color(&bary.weights(-40, 90));
    assert_eq!(c, Color::cons(255, 0, 0));
}

#[test]
fn texture_coordinates_are_interpolated() {
    let a = Vert::cons(Vec3i::cons(0, 4, 0), Color::cons(0, 0, 0), Vec2i::cons(0, 0));
    let b = Vert::cons(Vec3i::cons(4, 0, 0), Color::cons(0, 0, 0), Vec2i::cons(1600, 0));
    let c = Vert::cons(Vec3i::cons(0, 0, 0), Color::cons(0, 0, 0), Vec2i::cons(0, 3200));
    let t = Tri::cons_verts(a, b, c);
    let bary = Barycentric::cons(&t).unwrap();
    let w = bary.weights(1, 1);
    assert_eq!(t.interpolate_x(&w), 400);
    assert_eq!(t.interpolate_y(&w), 1600);
}

#[test]
fn normal_is_the_cross_product_of_two_edges_at_length_one() {
    // The unit triangle: (a - b) x (a - c) = (2, 0, 0), the unit vector
    // along x once it is scaled.
    let unit = screen_tri((0, -1, 0), (0, 1, 0), (0, 0, 1));
    assert_eq!(unit.get_normal(), Vec3i::cons(TRIG_ONE, 0, 0));
    let raw = unit.edge_cross();
    assert_eq!((raw.x, raw.y, raw.z), (2, 0, 0));
    let t = screen_tri((10, -8, -8), (10, -8, 8), (10, 8, 0));
    assert_eq!(t.get_normal(), Vec3i::cons(-TRIG_ONE, 0, 0));
    assert_eq!(t.edge_cross().x, -256);
    assert!(!t.faces_away());
    let back = screen_tri((10, -8, -8), (10, 8, 0), (10, -8, 8));
    assert_eq!(back.get_normal(), Vec3i::cons(TRIG_ONE, 0, 0));
    assert!(back.faces_away());
    // (1, 1, 1) has the whole-number length 1, so each part is the whole.
    let skew = screen_tri((1, 0, 0), (0, 1, 0), (0, 0, 1));
    let m = skew.edge_cross();
    assert_eq!((m.x, m.y, m.z), (1, 1, 1));
    assert_eq!(skew.get_normal(), Vec3i::cons(TRIG_ONE, TRIG_ONE, TRIG_ONE));
    // (0, -3, 4) * 12: the length is 60.
    let slant = screen_tri((0, 0, 0), (12, 0, 0), (0, 4, 3));
    let s = slant.edge_cross();
    assert_eq!((s.x, s.y, s.z), (0, -36, 48));
    assert_eq!(slant.get_normal(), Vec3i::cons(0, -644245095, 858993459));
}

#[test]
fn normal_of_a_triangle_without_area_has_no_length() {
    assert_eq!(screen_tri((0, 0, 0), (1, 1, 1), (2, 2, 2)).get_normal(), Vec3i::cons(0, 0, 0));
    assert_eq!(screen_tri((5, 5, 5), (5, 5, 5), (5, 5, 5)).get_normal(), Vec3i::cons(0, 0, 0));
}

#[test]
fn normal_of_the_largest_triangle() {
    let t = screen_tri((i32::MAX, i32::MIN, i32::MIN), (i32::MAX, i32::MIN, i32::MAX), (i32::MAX, i32::MAX, 0));
    let n = t.get_normal();
    assert!(n.x <= -TRIG_ONE + 8 && n.y == 0 && n.z == 0, "{:?}", n);
    let u = screen_tri((i32::MIN, i32::MIN, i32::MIN), (i32::MAX, i32::MAX, i32::MIN), (i32::MIN, i32::MAX, i32::MAX));
    let m = u.get_normal();
    let length = ((m.x as f64).powi(2) + (m.y as f64).powi(2) + (m.z as f64).powi(2)).sqrt();
    assert!((length / TRIG_ONE as f64 - 1.0).abs() < 1e-6);
}

#[test]
fn edge_on_triangle_counts_as_facing_away() {
    let t = screen_tri((1, 0, 0), (2, 0, 0), (3, 0, 5));
    assert_eq!(t.edge_cross().x, 0);
    assert_eq!(t.get_normal().x, 0);
    assert!(t.faces_away());
}

#[test]
fn long_side_classification() {
    // a on top, c at the bottom, b to the right of the long edge.
    assert!(screen_tri((2, 18, 0), (18, 10, 0), (2, 2, 0)).long_left());
    // b to the left of the long edge.
    assert!(!screen_tri((18, 18, 0), (2, 10, 0), (18, 2, 0)).long_left());
    // No area: counted with the left.
    assert!(screen_tri((0, 0, 0), (1, 1, 0), (2, 2, 0)).long_left());
}

#[test]
fn translation_moves_every_corner() {
    let mut t = screen_tri((1, 2, 3), (4, 5, 6), (7, 8, 9));
    t.translate(Vec3i::cons(10, 20, 30));
    assert_eq!(t.a.pos, Vec3i::cons(11, 22, 33));
    assert_eq!(t.c.pos, Vec3i::cons(17, 28, 39));
    t.translate_negative(Vec3i::cons(10, 20, 30));
    assert_eq!(t.a.pos, Vec3i::cons(1, 2, 3));
    assert_eq!(t.b.pos, Vec3i::cons(4, 5, 6));
    assert_eq!(t.c.pos, Vec3i::cons(7, 8, 9));
}

#[test]
fn mesh_accumulates_rotation_and_keeps_its_triangles() {
    let tris = vec![screen_tri((1, 2, 3), (4, 5, 6), (7, 8, 9))];
    let mut mesh = Mesh::cons(tris.clone(), Vec3i::cons(0, -50, 0), None);
    assert_eq!(mesh.rotation, Vec3i::cons(0, 0, 0));
    mesh.rotatex(100);
    mesh.rotatey(-7);
    mesh.rotatez(5);
    mesh.rotatex(23);
    assert_eq!(mesh.rotation, Vec3i::cons(123, -7, 5));
    assert_eq!(mesh.tris, tris);
    assert_eq!(mesh.center, Vec3i::cons(0, -50, 0));
    assert!(mesh.texture.is_none());
}

#[test]
fn turning_there_and_back_restores_the_mesh() {
    let tris = vec![screen_tri((1, 2, 3), (4, 5, 6), (7, 8, 9))];
    for &(start, by) in &[(0, 77), (i32::MAX, 5), (i32::MIN, -5), (12345, i32::MIN), (-3, i32::MAX)] {
        let mut mesh = Mesh::cons(tris.clone(), Vec3i::cons(0, 0, 0), None);
        mesh.rotatex(start);
        mesh.rotatey(start);
        mesh.rotatez(start);
        mesh.rotatex(by);
        mesh.rotatex(by.wrapping_neg());
        mesh.rotatey(by);
        mesh.rotatey(by.wrapping_neg());
        mesh.rotatez(by);
        mesh.rotatez(by.wrapping_neg());
        assert_eq!(mesh.rotation, Vec3i::cons(start, start, start));
        assert_eq!(mesh.tris, tris);
    }
}

#[test]
fn a_full_turn_is_no_turn() {
    let mut mesh = Mesh::cons(Vec::new(), Vec3i::cons(0, 0, 0), None);
    mesh.rotatez(i32::MIN);
    mesh.rotatez(i32::MIN);
    assert_eq!(mesh.rotation.z, 0);
}

#[test]
fn camera_and_frame() {
    let c = Camera::cons(Vec3i::cons(-100, 0, 0));
    assert_eq!(c.position, Vec3i::cons(-100, 0, 0));
    assert_eq!(c.rotation, Vec3i::cons(0, 0, 0));
    let f = RefFrame::cons(Vec3i::cons(1, 2, 3), 80);
    assert_eq!(f.center, Vec3i::cons(1, 2, 3));
    assert_eq!(f.length, 80);
}

#[test]
fn inverse_depth_is_interpolated_as_perspective_has_it() {
    let t = screen_tri((0, 4, 10), (4, 0, 40), (0, 0, 20));
    let bary = Barycentric::cons(&t).unwrap();
    assert_eq!(t.interpolate_depth_inverse(&bary.weights(0, 4)), 10);
    assert_eq!(t.interpolate_depth_inverse(&bary.weights(4, 0)), 40);
    assert_eq!(t.interpolate_depth_inverse(&bary.weights(0, 0)), 20);
    // Half way between the depths 10 and 40 lies their harmonic mean, 16:
    // nearer than 25, which is half way in space.
    assert_eq!(t.interpolate_depth_inverse(&bary.weights(2, 2)), 16);
    assert_eq!(t.interpolate_depth(&bary.weights(2, 2)), 25);
}

#[test]
fn triangle_at_one_depth_has_that_depth_everywhere() {
    for z in [1, 2, 3, 7, 10, 1000, 123456, i32::MAX] {
        let t = screen_tri((3, 20, z), (17, 9, z), (5, 1, z));
        let bary = Barycentric::cons(&t).unwrap();
        for &(x, y) in &[(3, 20), (8, 10), (5, 1), (10, 9)] {
            let d = t.interpolate_depth_inverse(&bary.weights(x, y));
            // Exact but for the rounding of the inverse.
            assert!((d - z as i64).abs() as f64 <= (z as f64) * (z as f64) / 1e12 + 1e-9, "{} for {}", d, z);
        }
    }
}

#[test]
fn depth_behind_the_camera_has_no_inverse() {
    let t = screen_tri((0, 4, 0), (4, 0, -5), (0, 0, i32::MIN));
    let bary = Barycentric::cons(&t).unwrap();
    assert_eq!(t.interpolate_depth_inverse(&bary.weights(1, 1)), rasterizer::FAR);
}
