use purrtty::quad::{next_power_of_two, Layer, QuadRenderer, QuadVertex, UploadPlan};

#[test]
fn rect_is_two_triangles() {
    let mut verts: Vec<QuadVertex<f32>> = Vec::new();
    let color = [0.1, 0.2, 0.3, 1.0];
    QuadRenderer::push_rect(&mut verts, 1.0, 2.0, 4.0, 6.0, color);
    let corners: Vec<[f32; 2]> = verts.iter().map(|v| v.pos).collect();
    assert_eq!(
        corners,
        [[1.0, 2.0], [4.0, 2.0], [1.0, 6.0], [1.0, 6.0], [4.0, 2.0], [4.0, 6.0]]
    );
    assert!(verts.iter().all(|v| v.color == color));
    QuadRenderer::push_rect(&mut verts, 0.0, 0.0, 1.0, 1.0, color);
    assert_eq!(verts.len(), 12);
    assert_eq!(verts[0].pos, [1.0, 2.0]);
}

#[test]
fn triangles_have_half_the_area_each() {
    let mut v: Vec<QuadVertex<i64>> = Vec::new();
    QuadRenderer::push_rect(&mut v, 1, 2, 4, 7, [0; 4]);
    let area = |a: &QuadVertex<i64>, b: &QuadVertex<i64>, c: &QuadVertex<i64>| {
        (b.pos[0] - a.pos[0]) * (c.pos[1] - a.pos[1])
            - (c.pos[0] - a.pos[0]) * (b.pos[1] - a.pos[1])
    };
    assert_eq!(area(&v[0], &v[1], &v[2]), 15);
    assert_eq!(area(&v[3], &v[4], &v[5]), 15);
}

#[test]
fn small_uploads_fit_the_first_buffer() {
    let mut layer = Layer::new();
    assert_eq!(layer, Layer { capacity: 6144, count: 0 });
    assert_eq!(layer.upload(6), UploadPlan::Write);
    assert_eq!(layer.upload(256), UploadPlan::Write);
    assert_eq!(layer, Layer { capacity: 6144, count: 256 });
}

#[test]
fn large_uploads_grow_the_buffer() {
    let mut layer = Layer::new();
    assert_eq!(layer.upload(257), UploadPlan::Grow(8192));
    assert_eq!(layer, Layer { capacity: 8192, count: 257 });
    assert_eq!(layer.upload(1), UploadPlan::Write);
    assert_eq!(layer, Layer { capacity: 8192, count: 1 });
    assert_eq!(layer.upload(1000), UploadPlan::Grow(32768));
}

#[test]
fn empty_uploads_draw_nothing() {
    let mut layer = Layer::new();
    layer.upload(300);
    assert_eq!(layer.draw(), Some(300));
    assert_eq!(layer.upload(0), UploadPlan::Clear);
    assert_eq!(layer, Layer { capacity: 8192, count: 0 });
    assert_eq!(layer.draw(), None);
}

#[test]
fn count_is_what_32_bits_hold() {
    let mut layer = Layer::new();
    assert_eq!(layer.upload(0x1_0000_0005), UploadPlan::Grow(1 << 37));
    assert_eq!(layer.count, 5);
}

#[test]
fn layers_are_independent() {
    let mut renderer = QuadRenderer::new();
    assert_eq!((renderer.render_bg(), renderer.render_overlay()), (None, None));
    assert_eq!(renderer.upload_bg(600), UploadPlan::Grow(16384));
    assert_eq!((renderer.render_bg(), renderer.render_overlay()), (Some(600), None));
    assert_eq!(renderer.upload_overlay(6), UploadPlan::Write);
    assert_eq!((renderer.render_bg(), renderer.render_overlay()), (Some(600), Some(6)));
    assert_eq!(renderer.overlay_layer.capacity, 6144);
}

#[test]
fn powers_of_two() {
    for n in [0u64, 1, 2, 3, 4, 5, 6145, 1 << 40, (1 << 40) + 1, 1 << 63] {
        assert_eq!(next_power_of_two(n), n.next_power_of_two());
    }
}
