//! Coordinate mapper between window pixels, UI space and the host's
//! normalized render-target space.
//!
//! UI space has its origin at the top left and is measured in pixels of the
//! render surface; the host wants vertices in `0..1` per axis with the origin
//! at the bottom left. A window and the render surface may differ in aspect
//! ratio, in which case the surface sits centered in the window behind
//! letterbox bars. All mappings here are computed exactly, as rationals over
//! integers; the unverified edge rounds them to floats at the last moment.

use vstd::prelude::*;

verus! {

/// Largest window or surface extent, and largest window coordinate magnitude,
/// the mapper accepts; keeps every product inside `i64`.
pub const MAX_SURFACE_EXTENT: u32 = 0x10000;

/// A render target, constructed fresh each frame from a host query and
/// read-only thereafter.
#[derive(Clone, Copy, PartialEq, Eq, Structural, Debug)]
pub struct RenderTarget {
    /// Host id of the target surface.
    pub id: u32,
    /// Surface width in pixels.
    pub width: u32,
    /// Surface height in pixels.
    pub height: u32,
    /// Bit pattern of the 32-bit float `1.0 / width`, precomputed by the host
    /// edge; copied verbatim into draw-command shader constants.
    pub w_recip_bits: u32,
    /// Bit pattern of the 32-bit float `1.0 / height`.
    pub h_recip_bits: u32,
}

impl RenderTarget {
    /// The surface has positive, bounded extents.
    pub open spec fn wf(self) -> bool {
        &&& 1 <= self.width <= MAX_SURFACE_EXTENT
        &&& 1 <= self.height <= MAX_SURFACE_EXTENT
    }

    /// Builds the per-frame descriptor from the host's surface query. The
    /// reciprocal bit patterns are floats, which this crate cannot compute:
    /// the embedder divides `1.0` by each extent and passes the bits in.
    pub fn new(id: u32, width: u32, height: u32, w_recip_bits: u32, h_recip_bits: u32) -> (r:
        RenderTarget)
        requires
            1 <= width <= MAX_SURFACE_EXTENT,
            1 <= height <= MAX_SURFACE_EXTENT,
        ensures
            r.wf(),
            r == (RenderTarget { id, width, height, w_recip_bits, h_recip_bits }),
    {
        RenderTarget { id, width, height, w_recip_bits, h_recip_bits }
    }
}

/// A UI-space position held exactly: each axis is the rational `num / den`.
#[derive(Clone, Copy, PartialEq, Eq, Structural, Debug)]
pub struct UiPos {
    pub x_num: i64,
    pub x_den: i64,
    pub y_num: i64,
    pub y_den: i64,
}

/// A render-space position (each axis nominally in `0..1`, origin bottom
/// left), held exactly as rationals.
#[derive(Clone, Copy, PartialEq, Eq, Structural, Debug)]
pub struct RenderPos {
    pub x_num: i64,
    pub x_den: i64,
    pub y_num: i64,
    pub y_den: i64,
}

/// The rationals `an/ad` and `bn/bd` are equal as numbers.
pub open spec fn rat_eq(an: int, ad: int, bn: int, bd: int) -> bool {
    an * bd == bn * ad
}

/// The window aspect and the surface aspect differ by less than one part in a
/// thousand: `|sw*wh/(sh*ww) - 1| < 1/1000`, cross-multiplied to stay exact.
pub open spec fn aspect_near_one(ww: int, wh: int, sw: int, sh: int) -> bool {
    let d = sw * wh - sh * ww;
    1000 * (if d >= 0 {
        d
    } else {
        -d
    }) < sh * ww
}

/// The window is wider than the surface: bars sit left and right.
pub open spec fn window_wider(ww: int, wh: int, sw: int, sh: int) -> bool {
    sw * wh < sh * ww
}

/// Numerator of the UI-space x for window pixel `x`: a plain scale when the
/// aspects nearly agree or the bars are top/bottom, otherwise offset by the
/// horizontal bar width and rescaled.
pub open spec fn ui_x_num(x: int, ww: int, wh: int, sw: int, sh: int) -> int {
    if aspect_near_one(ww, wh, sw, sh) {
        x * sw
    } else if window_wider(ww, wh, sw, sh) {
        2 * x * sh - ww * sh + sw * wh
    } else {
        x * sw
    }
}

/// Denominator that goes with `ui_x_num`.
pub open spec fn ui_x_den(ww: int, wh: int, sw: int, sh: int) -> int {
    if aspect_near_one(ww, wh, sw, sh) {
        ww
    } else if window_wider(ww, wh, sw, sh) {
        2 * wh
    } else {
        ww
    }
}

/// Numerator of the UI-space y for window pixel `y`; offset and rescaled when
/// the bars are top and bottom.
pub open spec fn ui_y_num(y: int, ww: int, wh: int, sw: int, sh: int) -> int {
    if aspect_near_one(ww, wh, sw, sh) {
        y * sh
    } else if window_wider(ww, wh, sw, sh) {
        y * sh
    } else {
        2 * y * sw - sw * wh + sh * ww
    }
}

/// Denominator that goes with `ui_y_num`.
pub open spec fn ui_y_den(ww: int, wh: int, sw: int, sh: int) -> int {
    if aspect_near_one(ww, wh, sw, sh) {
        wh
    } else if window_wider(ww, wh, sw, sh) {
        wh
    } else {
        2 * ww
    }
}

impl UiPos {
    /// Bounds every position produced by `to_ui_space` satisfies, and every
    /// position handed to `to_render_space` must satisfy.
    pub open spec fn wf(self) -> bool {
        &&& 1 <= self.x_den <= 0x20000
        &&& 1 <= self.y_den <= 0x20000
        &&& -0x4_0000_0000 <= self.x_num <= 0x4_0000_0000
        &&& -0x4_0000_0000 <= self.y_num <= 0x4_0000_0000
    }
}

proof fn mul_le(a: int, b: int, bound_a: int, bound_b: int)
    by (nonlinear_arith)
    requires
        0 <= a <= bound_a,
        0 <= b <= bound_b,
    ensures
        0 <= a * b <= bound_a * bound_b,
{
}

proof fn mul_abs_le(a: int, b: int, bound_a: int, bound_b: int)
    by (nonlinear_arith)
    requires
        -bound_a <= a <= bound_a,
        0 <= b <= bound_b,
        0 <= bound_a,
    ensures
        -(bound_a * bound_b) <= a * b <= bound_a * bound_b,
{
}

/// Maps a window pixel position into UI space, exactly. The surface is
/// assumed centered in the window: when the aspects differ by a thousandth or
/// more, the longer window axis is offset by the letterbox bar and rescaled,
/// and the other axis is scaled linearly.
pub fn to_ui_space(x: i32, y: i32, window_size: (u32, u32), screen_size: (u32, u32)) -> (r:
    UiPos)
    requires
        1 <= window_size.0 <= MAX_SURFACE_EXTENT,
        1 <= window_size.1 <= MAX_SURFACE_EXTENT,
        1 <= screen_size.0 <= MAX_SURFACE_EXTENT,
        1 <= screen_size.1 <= MAX_SURFACE_EXTENT,
        -0x10000 <= x <= 0x10000,
        -0x10000 <= y <= 0x10000,
    ensures
        r.wf(),
        r.x_num == ui_x_num(
            x as int,
            window_size.0 as int,
            window_size.1 as int,
            screen_size.0 as int,
            screen_size.1 as int,
        ),
        r.x_den == ui_x_den(
            window_size.0 as int,
            window_size.1 as int,
            screen_size.0 as int,
            screen_size.1 as int,
        ),
        r.y_num == ui_y_num(
            y as int,
            window_size.0 as int,
            window_size.1 as int,
            screen_size.0 as int,
            screen_size.1 as int,
        ),
        r.y_den == ui_y_den(
            window_size.0 as int,
            window_size.1 as int,
            screen_size.0 as int,
            screen_size.1 as int,
        ),
{
    let ww = window_size.0 as i64;
    let wh = window_size.1 as i64;
    let sw = screen_size.0 as i64;
    let sh = screen_size.1 as i64;
    let xi = x as i64;
    let yi = y as i64;
    proof {
        mul_le(sw as int, wh as int, 0x10000, 0x10000);
        mul_le(sh as int, ww as int, 0x10000, 0x10000);
        mul_abs_le(xi as int, sw as int, 0x10000, 0x10000);
        mul_abs_le(yi as int, sh as int, 0x10000, 0x10000);
        mul_abs_le(xi as int, sh as int, 0x10000, 0x10000);
        mul_abs_le(yi as int, sw as int, 0x10000, 0x10000);
        mul_le(ww as int, sh as int, 0x10000, 0x10000);
        mul_le(sw as int, wh as int, 0x10000, 0x10000);
        mul_abs_le(2 * (xi as int), sh as int, 0x20000, 0x10000);
        mul_abs_le(2 * (yi as int), sw as int, 0x20000, 0x10000);
    }
    let d = sw * wh - sh * ww;
    let abs_d = if d >= 0 {
        d
    } else {
        -d
    };
    if 1000 * abs_d < sh * ww {
        UiPos { x_num: xi * sw, x_den: ww, y_num: yi * sh, y_den: wh }
    } else if sw * wh < sh * ww {
        UiPos {
            x_num: 2 * xi * sh - ww * sh + sw * wh,
            x_den: 2 * wh,
            y_num: yi * sh,
            y_den: wh,
        }
    } else {
        UiPos {
            x_num: xi * sw,
            x_den: ww,
            y_num: 2 * yi * sw - sw * wh + sh * ww,
            y_den: 2 * ww,
        }
    }
}

/// Maps a UI-space position into the render target's normalized space:
/// `x' = x / w`, `y' = 1 - y / h`, flipping the vertical origin. Pure and
/// exact; no side effects.
pub fn to_render_space(pos: &UiPos, render_target: &RenderTarget) -> (r: RenderPos)
    requires
        pos.wf(),
        render_target.wf(),
    ensures
        r.x_num == pos.x_num,
        r.x_den == pos.x_den * render_target.width,
        r.y_num == pos.y_den * render_target.height - pos.y_num,
        r.y_den == pos.y_den * render_target.height,
        r.x_den >= 1,
        r.y_den >= 1,
{
    let w = render_target.width as i64;
    let h = render_target.height as i64;
    proof {
        mul_le(pos.x_den as int, w as int, 0x20000, 0x10000);
        mul_le(pos.y_den as int, h as int, 0x20000, 0x10000);
        assert(pos.x_den * w >= 1) by (nonlinear_arith)
            requires
                pos.x_den >= 1,
                w >= 1,
        ;
        assert(pos.y_den * h >= 1) by (nonlinear_arith)
            requires
                pos.y_den >= 1,
                h >= 1,
        ;
    }
    RenderPos {
        x_num: pos.x_num,
        x_den: pos.x_den * w,
        y_num: pos.y_den * h - pos.y_num,
        y_den: pos.y_den * h,
    }
}

/// TESTABLE PROPERTY — `to_render_space` inverts `to_ui_space`, composed with
/// the render-target mapping, when the window aspect equals the surface
/// aspect: mapping window pixel `(x, y)` into UI space and then into render
/// space yields exactly `(x / ww, (wh - y) / wh)`, the window-normalized
/// point with the vertical origin flipped. Exact, with no tolerance needed,
/// because the mapping is computed over rationals.
pub proof fn lemma_render_space_inverts_ui_space(
    x: int,
    y: int,
    ww: int,
    wh: int,
    sw: int,
    sh: int,
)
    requires
        1 <= ww <= 0x10000,
        1 <= wh <= 0x10000,
        1 <= sw <= 0x10000,
        1 <= sh <= 0x10000,
        sw * wh == sh * ww,
    ensures
        aspect_near_one(ww, wh, sw, sh),
        rat_eq(ui_x_num(x, ww, wh, sw, sh), ui_x_den(ww, wh, sw, sh) * sw, x, ww),
        rat_eq(
            ui_y_den(ww, wh, sw, sh) * sh - ui_y_num(y, ww, wh, sw, sh),
            ui_y_den(ww, wh, sw, sh) * sh,
            wh - y,
            wh,
        ),
{
    assert(sh * ww >= 1) by (nonlinear_arith)
        requires
            1 <= sh,
            1 <= ww,
    ;
    assert(aspect_near_one(ww, wh, sw, sh));
    assert((x * sw) * ww == x * (ww * sw)) by (nonlinear_arith);
    assert((wh * sh - y * sh) * wh == (wh - y) * (wh * sh)) by (nonlinear_arith);
}

} // verus!
