use rasterizer::{
    Barycentric, Buffer, Camera, Color, EdgeTracer, Face, Mesh, Renderer, Stage, Texture, Tri,
    Turns, Vec2i, Vec3i, Vert, FAR, TEX_ONE,
};

fn renderer(height: usize, width: usize, scale: i32) -> Renderer {
    Renderer::cons(Buffer::cons(height, width), Vec3i::cons(-3, 1, 4), scale)
}

fn tri(a: (i32, i32, i32), b: (i32, i32, i32), c: (i32, i32, i32)) -> Tri {
    Tri::cons(Vec3i::cons(a.0, a.1, a.2), Vec3i::cons(b.0, b.1, b.2), Vec3i::cons(c.0, c.1, c.2))
}

/// A camera-space triangle at depth 10 that a 20 by 20 screen of scale 10
/// shows with the corners (2, 18), (18, 10) and (2, 2).
fn facing() -> Tri {
    tri((10, -8, -8), (10, -8, 8), (10, 8, 0))
}

fn written(r: &Renderer) -> Vec<(usize, usize)> {
    let mut pixels = Vec::new();
    for y in 0..r.buffer.height() {
        for x in 0..r.buffer.width() {
            if r.buffer.get_depth(x, y) != FAR {
                pixels.push((x, y));
            }
        }
    }
    pixels
}

fn pixel(r: &Renderer, x: usize, y: usize) -> u32 {
    r.buffer.get_pixels()[r.buffer.idx(x, y)]
}

#[test]
fn unit_triangle_projects_about_the_centre_of_the_screen() {
    // Unit triangle a = (0, -1, 0), b = (0, 1, 0), c = (0, 0, 1), seen from
    // (-10, 0, 0) with a field of view of 90 degrees: the scale is half the
    // width. Coordinates carry 8 binary places.
    let r = renderer(480, 640, 320);
    let one = 256;
    let t = Tri::cons(Vec3i::cons(0, -one, 0), Vec3i::cons(0, one, 0), Vec3i::cons(0, 0, one));
    let mesh = Mesh::cons(vec![t], Vec3i::cons(0, 0, 0), None);
    let camera = Camera::cons(Vec3i::cons(-10 * one, 0, 0));
    let still = Stage { mesh: Turns::none(), camera: Turns::none() };
    let seen = r.pose_triangle(&t, &mesh, &camera, &still).tri;
    assert_eq!(seen.a.pos, Vec3i::cons(10 * one, -one, 0));
    let pa = r.view_to_screen(&seen.a).unwrap();
    let pb = r.view_to_screen(&seen.b).unwrap();
    let pc = r.view_to_screen(&seen.c).unwrap();
    // By hand: x = 320 -+ 32, y = 240; and x = 320, y = 240 - 32.
    assert!((pa.pos.x - 288).abs() <= 1 && (pa.pos.y - 240).abs() <= 1);
    assert!((pb.pos.x - 352).abs() <= 1 && (pb.pos.y - 240).abs() <= 1);
    assert!((pc.pos.x - 320).abs() <= 1 && (pc.pos.y - 208).abs() <= 1);
    // Symmetric about the horizontal centre.
    assert_eq!(pa.pos.x + pb.pos.x, 2 * 320);
    assert_eq!(pc.pos.x, 320);
    // The depth is carried along.
    assert_eq!(pa.pos.z, 10 * one);
}

#[test]
fn projection_follows_its_formula() {
    let r = renderer(100, 200, 50);
    let v = Vert::cons(Vec3i::cons(7, 3, -2), Color::cons(1, 2, 3), Vec2i::cons(4, 5));
    let p = r.view_to_screen(&v).unwrap();
    // 3 * 50 / 7 = 21.4.. -> 21, + 100; 2 * 50 / 7 = 14.2.. -> 14, + 50.
    assert_eq!(p.pos, Vec3i::cons(121, 64, 7));
    assert_eq!(p.color, Color::cons(1, 2, 3));
    assert_eq!(p.texpos, Vec2i::cons(4, 5));
    let w = Vert::cons(Vec3i::cons(7, -3, 2), Color::cons(0, 0, 0), Vec2i::cons(0, 0));
    let q = r.view_to_screen(&w).unwrap();
    // -21.4.. -> -22, + 100; -14.2.. -> -15, + 50.
    assert_eq!(q.pos, Vec3i::cons(78, 35, 7));
}

#[test]
fn nothing_at_or_behind_the_camera_is_projected() {
    let r = renderer(100, 200, 50);
    for &x in &[0, -1, i32::MIN] {
        let v = Vert::cons(Vec3i::cons(x, 3, -2), Color::cons(0, 0, 0), Vec2i::cons(0, 0));
        assert!(r.view_to_screen(&v).is_none());
    }
}

#[test]
fn coordinate_beyond_the_integer_range_is_rejected() {
    let r = renderer(100, 200, i32::MAX - 100);
    let v = Vert::cons(Vec3i::cons(1, i32::MAX, 0), Color::cons(0, 0, 0), Vec2i::cons(0, 0));
    assert!(r.view_to_screen(&v).is_none());
    let w = Vert::cons(Vec3i::cons(1, 0, i32::MIN), Color::cons(0, 0, 0), Vec2i::cons(0, 0));
    assert!(r.view_to_screen(&w).is_none());
    // One column more and the coordinate would not fit.
    let last = Vert::cons(Vec3i::cons(i32::MAX, i32::MAX, 0), Color::cons(0, 0, 0), Vec2i::cons(0, 0));
    assert_eq!(r.view_to_screen(&last).unwrap().pos.x, i32::MAX);
    let over = Renderer::cons(Buffer::cons(100, 202), Vec3i::cons(-3, 1, 4), i32::MAX - 100);
    assert!(over.view_to_screen(&last).is_none());
}

#[test]
fn prepared_triangle_is_sorted_by_descending_row() {
    let r = renderer(20, 20, 10);
    let t = r.prep_triangle(&facing()).unwrap();
    assert_eq!((t.a.pos.x, t.a.pos.y), (2, 18));
    assert_eq!((t.b.pos.x, t.b.pos.y), (18, 10));
    assert_eq!((t.c.pos.x, t.c.pos.y), (2, 2));
    assert!(t.a.pos.y >= t.b.pos.y && t.b.pos.y >= t.c.pos.y);
    assert_eq!(t.a.pos.z, 10);
    // The corners keep their colours: a was red, b green, c blue.
    assert_eq!(t.a.color, Color::cons(255, 0, 0));
    assert_eq!(t.b.color, Color::cons(0, 0, 255));
    assert_eq!(t.c.color, Color::cons(0, 255, 0));
}

#[test]
fn back_face_is_never_drawn() {
    let mut r = renderer(20, 20, 10);
    let back = tri((10, -8, -8), (10, 8, 0), (10, -8, 8));
    assert!(back.faces_away());
    assert!(r.prep_triangle(&back).is_none());
    let before = r.buffer.get_pixels().clone();
    r.render_face(&Face { tri: back, lighting: 255 }, &None);
    assert_eq!(*r.buffer.get_pixels(), before);
    assert!(written(&r).is_empty());
    r.outline_faces(&vec![Face { tri: back, lighting: 255 }]);
    assert!(written(&r).is_empty());
}

#[test]
fn triangle_with_a_corner_behind_the_camera_is_never_drawn() {
    let mut r = renderer(20, 20, 10);
    let t = tri((10, -8, -8), (-10, -8, 8), (10, 8, 0));
    r.render_face(&Face { tri: t, lighting: 255 }, &None);
    assert!(written(&r).is_empty());
    let u = tri((0, -8, -8), (10, -8, 8), (10, 8, 0));
    r.render_face(&Face { tri: u, lighting: 255 }, &None);
    assert!(written(&r).is_empty());
}

#[test]
fn triangle_without_area_on_the_screen_is_skipped() {
    let mut r = renderer(20, 20, 10);
    // Three corners on one line of the screen, at different depths.
    let t = tri((10, -5, -5), (20, 0, 0), (10, 5, 5));
    let p = r.prep_triangle(&t);
    if let Some(p) = p {
        assert!(Barycentric::cons(&p).is_none());
    }
    r.render_face(&Face { tri: t, lighting: 255 }, &None);
    assert!(written(&r).is_empty());
}

#[test]
fn facing_triangle_is_filled_between_its_edges() {
    let mut r = renderer(20, 20, 10);
    r.render_face(&Face { tri: facing(), lighting: 255 }, &None);
    let pixels = written(&r);
    assert!(!pixels.is_empty());
    // Rows strictly between the top and the bottom corner are touched.
    for y in 3..=17 {
        assert!(pixels.iter().any(|&(_, py)| py == y), "row {}", y);
    }
    assert!(pixels.iter().all(|&(x, y)| (2..18).contains(&x) && (3..=17).contains(&y)));
    // Every span begins on the long edge.
    for y in 3..=17 {
        assert!(pixels.contains(&(2, y)));
    }
    // The row of the middle corner runs up to the column where the short
    // edge enters it.
    let on_row_10: Vec<usize> = pixels.iter().filter(|p| p.1 == 10).map(|p| p.0).collect();
    assert_eq!(on_row_10, (2..17).collect::<Vec<usize>>());
    // The triangle lies at depth 10 throughout.
    assert!(pixels.iter().all(|&(x, y)| r.buffer.get_depth(x, y) == 10));
    // Near the top corner the colour is mostly that of the top corner.
    let top = pixel(&r, 2, 17);
    assert!((top >> 16) & 0xff > 200);
}

#[test]
fn covered_pixels_have_weights_that_are_hardly_negative() {
    let shapes = [
        facing(),
        tri((10, 8, -8), (10, -8, 0), (10, 8, 8)),
        tri((10, -9, -7), (10, 3, 9), (10, 9, 1)),
        tri((10, 0, -9), (10, -9, 9), (10, 9, 8)),
        tri((10, -9, -9), (10, -8, 9), (10, -7, -9)),
        tri((10, -9, 0), (10, 9, 1), (10, 9, -1)),
        tri((10, 9, -1), (10, -9, 0), (10, 0, 1)),
        tri((10, -9, 8), (10, -8, 9), (10, 9, -9)),
    ];
    for shape in shapes.iter() {
        let mut r = renderer(20, 20, 10);
        r.render_face(&Face { tri: *shape, lighting: 255 }, &None);
        let t = r.prep_triangle(shape).unwrap();
        let bary = Barycentric::cons(&t).unwrap();
        let extent = |p: Vec3i, q: Vec3i| -> i128 { ((q.x - p.x).abs().max((q.y - p.y).abs())) as i128 };
        let height = (t.a.pos.y - t.c.pos.y) as i128;
        let long = extent(t.a.pos, t.c.pos);
        let short = extent(t.a.pos, t.b.pos).max(extent(t.c.pos, t.b.pos));
        let pixels = written(&r);
        assert!(!pixels.is_empty());
        for &(x, y) in &pixels {
            let w = bary.weights(x as i32, y as i32);
            let sign = if w.den < 0 { -1 } else { 1 };
            assert_eq!(w.w1 + w.w2 + w.w3, w.den);
            assert!(2 * sign * w.w2 >= -long);
            assert!(2 * sign * w.w1 >= -short * height);
            assert!(2 * sign * w.w3 >= -short * height);
            assert!(t.c.pos.y <= y as i32 && y as i32 <= t.a.pos.y);
        }
    }
}

#[test]
fn walker_enters_a_row_up_to_half_a_run_off_its_edge() {
    // On the screen: a = (19, 7), b = (18, 3), c = (0, 2). The long edge
    // runs some four columns to the row; where its walker enters a row it
    // stands up to half of that beside the edge, and the span begins there.
    let mut r = renderer(20, 20, 10);
    let first = tri((10, 9, 3), (10, 8, 7), (10, -10, 8));
    let shape = if first.faces_away() { tri((10, 9, 3), (10, -10, 8), (10, 8, 7)) } else { first };
    r.render_face(&Face { tri: shape, lighting: 255 }, &None);
    let t = r.prep_triangle(&shape).unwrap();
    assert_eq!((t.a.pos.x, t.a.pos.y), (19, 7));
    assert_eq!((t.b.pos.x, t.b.pos.y), (18, 3));
    assert_eq!((t.c.pos.x, t.c.pos.y), (0, 2));
    let bary = Barycentric::cons(&t).unwrap();
    let pixels = written(&r);
    assert!(!pixels.is_empty());
    let mut lowest = 0;
    for &(x, y) in &pixels {
        let w = bary.weights(x as i32, y as i32);
        assert_eq!(w.den, -71);
        lowest = lowest.min(-w.w1).min(-w.w2).min(-w.w3);
        // The weight of b is at least -extent(a, c) / (2 |den|), those of
        // a and c at least -short extent * height / (2 |den|).
        assert!(2 * -w.w2 >= -19);
        assert!(2 * -w.w1 >= -18 * 5);
        assert!(2 * -w.w3 >= -18 * 5);
    }
    // Farther outside than half a pixel.
    assert_eq!(lowest, -9);
}

#[test]
fn drawing_twice_is_drawing_once() {
    let mut r = renderer(20, 20, 10);
    r.render_face(&Face { tri: facing(), lighting: 200 }, &None);
    let pixels = r.buffer.get_pixels().clone();
    let depths: Vec<i64> = written(&r).iter().map(|&(x, y)| r.buffer.get_depth(x, y)).collect();
    r.render_face(&Face { tri: facing(), lighting: 200 }, &None);
    assert_eq!(*r.buffer.get_pixels(), pixels);
    let again: Vec<i64> = written(&r).iter().map(|&(x, y)| r.buffer.get_depth(x, y)).collect();
    assert_eq!(again, depths);
}

#[test]
fn lighting_dims_the_triangle() {
    let mut bright = renderer(20, 20, 10);
    bright.render_face(&Face { tri: facing(), lighting: 255 }, &None);
    let mut dim = renderer(20, 20, 10);
    dim.render_face(&Face { tri: facing(), lighting: 128 }, &None);
    let mut dark = renderer(20, 20, 10);
    dark.render_face(&Face { tri: facing(), lighting: 0 }, &None);
    let mut floor = renderer(20, 20, 10);
    floor.render_face(&Face { tri: facing(), lighting: 13 }, &None);
    for &(x, y) in &written(&bright) {
        let b = pixel(&bright, x, y);
        let d = pixel(&dim, x, y);
        for shift in [16, 8, 0] {
            let cb = (b >> shift) & 0xff;
            let cd = (d >> shift) & 0xff;
            assert_eq!(cd, cb * 128 / 255);
        }
        assert_eq!(pixel(&dark, x, y), pixel(&floor, x, y));
    }
}

#[test]
fn nearer_triangle_hides_the_farther_whatever_the_order() {
    let near = tri((10, -8, -8), (10, -8, 8), (10, 8, 0));
    // The same outline on the screen, twice as far away.
    let far = tri((20, -16, -16), (20, -16, 16), (20, 16, 0));
    let mut first = renderer(20, 20, 10);
    first.render_faces(&vec![Face { tri: near, lighting: 255 }, Face { tri: far, lighting: 60 }], &None);
    let mut second = renderer(20, 20, 10);
    second.render_faces(&vec![Face { tri: far, lighting: 60 }, Face { tri: near, lighting: 255 }], &None);
    assert_eq!(first.buffer.get_pixels(), second.buffer.get_pixels());
    let mut alone = renderer(20, 20, 10);
    alone.render_face(&Face { tri: near, lighting: 255 }, &None);
    assert_eq!(first.buffer.get_pixels(), alone.buffer.get_pixels());
    assert!(written(&first).iter().all(|&(x, y)| first.buffer.get_depth(x, y) == 10));
}

#[test]
fn mesh_of_no_faces_draws_nothing() {
    let mut r = renderer(5, 5, 10);
    r.render_faces(&Vec::new(), &None);
    r.outline_faces(&Vec::new());
    assert!(written(&r).is_empty());
}

#[test]
fn triangle_that_leaves_the_screen_is_cut_at_its_border() {
    let mut r = renderer(20, 20, 10);
    // Corners at (-30, 40), (50, 10), (-30, -20) on the screen.
    let t = tri((10, -40, -30), (10, -40, 30), (10, 40, 0));
    r.render_face(&Face { tri: t, lighting: 255 }, &None);
    let pixels = written(&r);
    // Every pixel of the screen lies within this triangle.
    assert_eq!(pixels.len(), 400);
}

#[test]
fn line_is_drawn_along_the_walk() {
    let mut r = renderer(10, 10, 10);
    r.draw_line(Vec2i::cons(1, 1), Vec2i::cons(6, 4), Color::cons(9, 8, 7));
    let mut tracer = EdgeTracer::cons(Vec2i::cons(1, 1), Vec2i::cons(6, 4));
    let mut expected = Vec::new();
    while let Some(p) = tracer.step_once() {
        expected.push((p.x as usize, p.y as usize));
    }
    expected.sort_by_key(|p| (p.1, p.0));
    assert_eq!(written(&r), expected);
    assert_eq!(expected.len(), 5);
    for &(x, y) in &expected {
        assert_eq!(pixel(&r, x, y), 0x090807);
        assert_eq!(r.buffer.get_depth(x, y), 1);
    }
    // The starting point itself is not drawn.
    assert_eq!(r.buffer.get_depth(1, 1), FAR);
}

#[test]
fn line_that_leaves_the_screen_goes_on_where_it_returns() {
    let mut r = renderer(4, 4, 10);
    r.draw_line(Vec2i::cons(-3, 1), Vec2i::cons(8, 1), Color::cons(1, 1, 1));
    assert_eq!(written(&r), vec![(0, 1), (1, 1), (2, 1), (3, 1)]);
}

#[test]
fn wireframe_draws_the_three_edges() {
    let mut r = renderer(20, 20, 10);
    r.outline_faces(&vec![Face { tri: facing(), lighting: 255 }]);
    let pixels = written(&r);
    assert!(pixels.contains(&(18, 10)));
    assert!(pixels.contains(&(2, 2)));
    assert!(pixels.contains(&(2, 10)));
    assert!(!pixels.contains(&(6, 10)));
    for &(x, y) in &pixels {
        assert_eq!(pixel(&r, x, y), 0x00ffff);
    }
}

#[test]
fn textured_triangle_takes_its_colours_from_the_texture() {
    let data: Vec<u8> = vec![255, 0, 0, 0, 255, 0, 0, 0, 255, 255, 255, 255];
    let texture = Texture::from_rgb8(2, 2, &data).unwrap();
    let texture = Some(texture);
    let mut r = Renderer::cons(Buffer::cons(20, 20), Vec3i::cons(-3, 1, 4), 10);
    let last = (TEX_ONE - 1) as i32;
    let a = Vert::cons(Vec3i::cons(10, -8, -8), Color::cons(0, 0, 0), Vec2i::cons(0, 0));
    let b = Vert::cons(Vec3i::cons(10, -8, 8), Color::cons(0, 0, 0), Vec2i::cons(0, last));
    let c = Vert::cons(Vec3i::cons(10, 8, 0), Color::cons(0, 0, 0), Vec2i::cons(last, 0));
    r.render_face(&Face { tri: Tri::cons_verts(a, b, c), lighting: 255 }, &texture);
    let pixels = written(&r);
    assert!(!pixels.is_empty());
    let palette = [0xff0000, 0x00ff00, 0x0000ff, 0xffffff];
    assert!(pixels.iter().all(|&(x, y)| palette.contains(&pixel(&r, x, y))));
    // Near the first corner the texture is red, near the second blue.
    assert_eq!(pixel(&r, 2, 17), 0xff0000);
    assert_eq!(pixel(&r, 2, 3), 0x0000ff);
}

#[test]
fn sphere_has_a_round_silhouette() {
    // A sphere of radius 50 about the origin, seen head-on from (-200, 0, 0).
    // Coordinates carry 4 binary places.
    let one = 16.0_f64;
    let radius = 50.0_f64;
    let distance = 200.0_f64;
    let scale = 600;
    let segments = 48;
    let point = |i: usize, j: usize| -> Vec3i {
        let theta = std::f64::consts::PI * (i as f64) / (segments as f64);
        let phi = 2.0 * std::f64::consts::PI * (j as f64) / (segments as f64);
        let x = radius * theta.sin() * phi.cos();
        let y = radius * theta.sin() * phi.sin();
        let z = radius * theta.cos();
        Vec3i::cons((x * one).round() as i32, (y * one).round() as i32, (z * one).round() as i32)
    };
    let mut tris = Vec::new();
    for i in 0..segments {
        for j in 0..segments {
            let p00 = point(i, j);
            let p01 = point(i, j + 1);
            let p10 = point(i + 1, j);
            let p11 = point(i + 1, j + 1);
            for t in [Tri::cons(p00, p10, p11), Tri::cons(p00, p11, p01)] {
                // Put the corners in the order that turns the normal outwards.
                let n = t.edge_cross();
                let out = (t.a.pos.x as i128) * n.x + (t.a.pos.y as i128) * n.y + (t.a.pos.z as i128) * n.z;
                tris.push(if out < 0 { Tri::cons(t.a.pos, t.c.pos, t.b.pos) } else { t });
            }
        }
    }
    let mesh = Mesh::cons(tris, Vec3i::cons(0, 0, 0), None);
    let camera = Camera::cons(Vec3i::cons((-distance * one) as i32, 0, 0));
    let still = Stage { mesh: Turns::none(), camera: Turns::none() };
    let mut r = renderer(400, 400, scale);
    r.render_mesh(&mesh, &camera, &still);
    let pixels = written(&r);
    assert!(!pixels.is_empty());
    let min_x = pixels.iter().map(|p| p.0).min().unwrap() as f64;
    let max_x = pixels.iter().map(|p| p.0).max().unwrap() as f64;
    let min_y = pixels.iter().map(|p| p.1).min().unwrap() as f64;
    let max_y = pixels.iter().map(|p| p.1).max().unwrap() as f64;
    let width = max_x - min_x + 1.0;
    let height = max_y - min_y + 1.0;
    // The disc that a sphere projects to is as wide as it is high.
    assert!((width / height - 1.0).abs() < 0.02, "{} by {}", width, height);
    // Its radius on the screen is scale * r / sqrt(d^2 - r^2).
    let expected = 2.0 * (scale as f64) * radius / (distance * distance - radius * radius).sqrt();
    assert!((width / expected - 1.0).abs() < 0.02, "{} wide, {} expected", width, expected);
    assert!((height / expected - 1.0).abs() < 0.02, "{} high, {} expected", height, expected);
    // The centre of the disc is the nearest point of the sphere.
    let centre = r.buffer.get_depth(200, 200);
    assert!((centre - ((distance - radius) * one) as i64).abs() <= 1);
    // The side of the sphere that the light falls on is the brighter one.
    let bright = pixel(&r, 200, 260) & 0xff;
    let dark = pixel(&r, 200, 140) & 0xff;
    assert!(bright != dark);
}
