use overlay_draw::coord::{to_render_space, to_ui_space, RenderTarget};

#[test]
fn equal_aspect_is_a_plain_scale() {
    // 800x600 window, 800x600 surface: ratio exactly 1.
    let p = to_ui_space(400, 150, (800, 600), (800, 600));
    assert_eq!(p.x_num, 400 * 800);
    assert_eq!(p.x_den, 800);
    assert_eq!(p.y_num, 150 * 600);
    assert_eq!(p.y_den, 600);
}

#[test]
fn near_equal_aspect_is_a_plain_scale() {
    // 1600x900 window, 800x450 surface: same aspect at another size.
    let p = to_ui_space(100, 50, (1600, 900), (800, 450));
    assert_eq!(p.x_num, 100 * 800);
    assert_eq!(p.x_den, 1600);
    assert_eq!(p.y_num, 50 * 450);
    assert_eq!(p.y_den, 900);
}

#[test]
fn wide_window_offsets_the_horizontal_axis() {
    // 1600x900 window around a 4:3 surface of 800x600: bars left and right.
    // The window's horizontal center must land on the surface's center.
    let p = to_ui_space(800, 450, (1600, 900), (800, 600));
    // x = (2*800*600 - 1600*600 + 800*900) / (2*900) = 720000 / 1800 = 400.
    assert_eq!(p.x_num, 720000);
    assert_eq!(p.x_den, 1800);
    assert_eq!(p.x_num / p.x_den, 400);
    // y is a plain scale.
    assert_eq!(p.y_num, 450 * 600);
    assert_eq!(p.y_den, 900);
    assert_eq!(p.y_num / p.y_den, 300);
    // The surface spans 1200 window pixels centered in 1600, so its left
    // edge — the bar width, 1600 * (1 - 0.75) / 2 = 200 window pixels in —
    // maps to ui x = 0.
    let edge = to_ui_space(200, 0, (1600, 900), (800, 600));
    assert_eq!(edge.x_num, 0);
}

#[test]
fn tall_window_offsets_the_vertical_axis() {
    // 800x900 window around a 800x600 surface: bars top and bottom.
    let p = to_ui_space(400, 450, (800, 900), (800, 600));
    // y = (2*450*800 - 800*900 + 600*800) / (2*800) = 480000 / 1600 = 300.
    assert_eq!(p.y_num, 480000);
    assert_eq!(p.y_den, 1600);
    assert_eq!(p.y_num / p.y_den, 300);
    assert_eq!(p.x_num, 400 * 800);
    assert_eq!(p.x_den, 800);
}

#[test]
fn render_space_flips_the_vertical_origin() {
    let rt = RenderTarget::new(1, 800, 600, (1.0f32 / 800.0).to_bits(), (1.0f32 / 600.0).to_bits());
    let p = to_ui_space(400, 150, (800, 600), (800, 600));
    let r = to_render_space(&p, &rt);
    // x' = 400/800 = 1/2 exactly.
    assert_eq!(r.x_num * 2, r.x_den);
    // y' = 1 - 150/600 = 3/4 exactly.
    assert_eq!(r.y_num * 4, r.y_den * 3);
}

#[test]
fn render_space_inverts_ui_space_at_equal_aspect() {
    // With equal aspects, window -> ui -> render equals the direct
    // window-normalized mapping with the vertical axis flipped, exactly.
    let (ww, wh) = (1024i64, 768i64);
    let rt = RenderTarget::new(
        2,
        512,
        384,
        (1.0f32 / 512.0).to_bits(),
        (1.0f32 / 384.0).to_bits(),
    );
    for &(x, y) in &[(0i32, 0i32), (512, 384), (1024, 768), (17, 583)] {
        let p = to_ui_space(x, y, (1024, 768), (512, 384));
        let r = to_render_space(&p, &rt);
        // r.x == x / ww and r.y == (wh - y) / wh, by cross-multiplication.
        assert_eq!(r.x_num * ww, (x as i64) * r.x_den);
        assert_eq!(r.y_num * wh, (wh - y as i64) * r.y_den);
    }
}
