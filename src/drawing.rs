//! Rasterization of single modules: the four module shapes, the five
//! finder-pattern ("eye") styles, and the colour each module is painted in.
//!
//! A module of side `s` anchored at `(x, y)` covers pixel `(x + dx, y + dy)`
//! for offsets `0 <= dx, dy < s`; distances are measured from the module's
//! centre `(x + s/2, y + s/2)` and compared after doubling both sides, so
//! every test is exact integer arithmetic.

use vstd::prelude::*;
use crate::canvas::{Canvas, lemma_index_split, lemma_pixel_index};
use crate::colors::{get_gradient_color, gradient_color_spec, opaque, Gradient};
use crate::types::{default_corner_fraction, EyeStyle, ModuleStyle, Rounding};

verus! {

/// Styling of the modules: colours, shapes and rounding.
#[derive(Debug, Clone, Copy, PartialEq, Eq)]
pub struct QrStyle {
    /// Colour of dark modules, and start colour of the gradient.
    pub foreground: [u8; 3],
    /// Gradient that replaces the flat foreground, if any.
    pub gradient: Option<Gradient>,
    /// Shape of data modules.
    pub module_style: ModuleStyle,
    /// Corner rounding of rounded-square modules and eyes.
    pub rounding: Rounding,
    /// Decoration of the finder patterns.
    pub eye_style: EyeStyle,
    /// Colour of the finder patterns, overriding the others, if any.
    pub eye_color: Option<[u8; 3]>,
}

impl QrStyle {
    pub open spec fn wf(&self) -> bool {
        self.rounding.wf()
    }
}

/// Twice the distance, along one axis, from the centre of the pixel at
/// offset `d` to the centre of a module of side `s`: `2 * (d + 1/2 - s/2)`.
pub open spec fn centre_offset(d: int, s: int) -> int {
    2 * d + 1 - s
}

/// Inscribed circle: pixel centre within `s / 2` of the module centre.
pub open spec fn circle_covers(s: int, dx: int, dy: int) -> bool {
    centre_offset(dx, s) * centre_offset(dx, s) + centre_offset(dy, s) * centre_offset(dy, s) <= s
        * s
}

/// Dot: pixel centre within `0.35 * s` of the module centre.
pub open spec fn dot_covers(s: int, dx: int, dy: int) -> bool {
    100 * (centre_offset(dx, s) * centre_offset(dx, s) + centre_offset(dy, s) * centre_offset(dy, s))
        <= 49 * s * s
}

/// Twice the coordinate of the centre of the corner arc that covers offset
/// `d` along one axis: `r` on the near side, `s - r` on the far side.
pub open spec fn arc_centre2(d: int, s: int, r: int) -> int {
    if d < r {
        2 * r
    } else {
        2 * (s - r)
    }
}

/// Rounded square of corner radius `r`: everything outside the four `r` by
/// `r` corner squares, and inside them the pixels whose centre lies within
/// `r` of the corner's arc centre.
pub open spec fn rounded_covers(s: int, r: int, dx: int, dy: int) -> bool {
    let in_corner = (dx < r || dx >= s - r) && (dy < r || dy >= s - r);
    if in_corner {
        let ex = 2 * dx + 1 - arc_centre2(dx, s, r);
        let ey = 2 * dy + 1 - arc_centre2(dy, s, r);
        ex * ex + ey * ey <= (2 * r) * (2 * r)
    } else {
        true
    }
}

/// Whether offset `(dx, dy)` of a module of side `s` is painted by `shape`
/// (`r` is the corner radius of a rounded square).
pub open spec fn shape_covers(shape: ModuleStyle, s: int, r: int, dx: int, dy: int) -> bool {
    match shape {
        ModuleStyle::Square => true,
        ModuleStyle::Circle => circle_covers(s, dx, dy),
        ModuleStyle::RoundedSquare => rounded_covers(s, r, dx, dy),
        ModuleStyle::Dots => dot_covers(s, dx, dy),
    }
}

/// `c` (rows of `w` pixels) with the module of side `s` at `(x, y)` painted
/// `color` in `shape`; pixels outside `c` are not written.
pub open spec fn painted(
    c: Seq<[u8; 4]>,
    w: int,
    x: int,
    y: int,
    s: int,
    color: [u8; 4],
    shape: ModuleStyle,
    r: int,
) -> Seq<[u8; 4]> {
    Seq::new(
        c.len(),
        |i: int|
            {
                let dx = i % w - x;
                let dy = i / w - y;
                if 0 <= dx < s && 0 <= dy < s && shape_covers(shape, s, r, dx, dy) {
                    color
                } else {
                    c[i]
                }
            },
    )
}

/// Whether pixel `i` is among the painted ones whose offset comes before
/// `limit` in row-major order.
pub open spec fn painted_before(
    w: int,
    x: int,
    y: int,
    s: int,
    shape: ModuleStyle,
    r: int,
    limit: int,
    i: int,
) -> bool {
    let dx = i % w - x;
    let dy = i / w - y;
    0 <= dx < s && 0 <= dy < s && dy * s + dx < limit && shape_covers(shape, s, r, dx, dy)
}

pub open spec fn painted_upto(
    c: Seq<[u8; 4]>,
    w: int,
    x: int,
    y: int,
    s: int,
    color: [u8; 4],
    shape: ModuleStyle,
    r: int,
    limit: int,
) -> Seq<[u8; 4]> {
    Seq::new(
        c.len(),
        |i: int|
            if painted_before(w, x, y, s, shape, r, limit, i) {
                color
            } else {
                c[i]
            },
    )
}

proof fn lemma_offset_unique(s: int, dx1: int, dy1: int, dx2: int, dy2: int)
    requires
        0 <= dx1 < s,
        0 <= dx2 < s,
        0 <= dy1,
        0 <= dy2,
        dy1 * s + dx1 == dy2 * s + dx2,
    ensures
        dx1 == dx2,
        dy1 == dy2,
{
    vstd::arithmetic::div_mod::lemma_fundamental_div_mod_converse(dy1 * s + dx1, s, dy1, dx1);
    vstd::arithmetic::div_mod::lemma_fundamental_div_mod_converse(dy2 * s + dx2, s, dy2, dx2);
}

proof fn lemma_offset_below_area(s: int, dx: int, dy: int)
    requires
        0 <= dx < s,
        0 <= dy < s,
    ensures
        dy * s + dx < s * s,
{
    assert(dy * s + dx < s * s) by (nonlinear_arith)
        requires
            0 <= dx < s,
            0 <= dy < s,
    ;
}

fn square_i128(v: i128) -> (r: i128)
    requires
        -0x4_0000_0000 <= v <= 0x4_0000_0000,
    ensures
        r == v * v,
        0 <= r <= 0x10_0000_0000_0000_0000,
{
    proof {
        assert(0 <= v * v <= 0x4_0000_0000 * 0x4_0000_0000) by (nonlinear_arith)
            requires
                -0x4_0000_0000 <= v <= 0x4_0000_0000,
        ;
    }
    v * v
}

/// Whether offset `(dx, dy)` of a module of side `s` is painted by `shape`.
fn covers(shape: ModuleStyle, s: u32, r: u32, dx: u32, dy: u32) -> (b: bool)
    requires
        r <= s,
    ensures
        b == shape_covers(shape, s as int, r as int, dx as int, dy as int),
{
    let s2 = square_i128(s as i128);
    match shape {
        ModuleStyle::Square => true,
        ModuleStyle::Circle => {
            let ex = square_i128(2 * dx as i128 + 1 - s as i128);
            let ey = square_i128(2 * dy as i128 + 1 - s as i128);
            ex + ey <= s2
        },
        ModuleStyle::Dots => {
            let ex = square_i128(2 * dx as i128 + 1 - s as i128);
            let ey = square_i128(2 * dy as i128 + 1 - s as i128);
            assert(49 * s * s == 49 * (s * s)) by (nonlinear_arith);
            100 * (ex + ey) <= 49 * s2
        },
        ModuleStyle::RoundedSquare => {
            let in_corner = (dx < r || dx >= s - r) && (dy < r || dy >= s - r);
            if in_corner {
                let cx: i128 = if dx < r {
                    2 * r as i128
                } else {
                    2 * (s - r) as i128
                };
                let cy: i128 = if dy < r {
                    2 * r as i128
                } else {
                    2 * (s - r) as i128
                };
                let ex = square_i128(2 * dx as i128 + 1 - cx);
                let ey = square_i128(2 * dy as i128 + 1 - cy);
                let rr = square_i128(2 * r as i128);
                ex + ey <= rr
            } else {
                true
            }
        },
    }
}

proof fn lemma_paint_step(
    before: Seq<[u8; 4]>,
    after: Seq<[u8; 4]>,
    c0: Seq<[u8; 4]>,
    w: int,
    h: int,
    x: int,
    y: int,
    s: int,
    color: [u8; 4],
    shape: ModuleStyle,
    r: int,
    dx: int,
    dy: int,
    hit: bool,
)
    requires
        0 < w,
        0 <= h,
        0 <= x,
        0 <= y,
        0 <= dx < s,
        0 <= dy < s,
        c0.len() == w * h,
        before == painted_upto(c0, w, x, y, s, color, shape, r, dy * s + dx),
        hit == (x + dx < w && y + dy < h && shape_covers(shape, s, r, dx, dy)),
        hit ==> after == before.update((y + dy) * w + (x + dx), color),
        !hit ==> after == before,
    ensures
        after == painted_upto(c0, w, x, y, s, color, shape, r, dy * s + dx + 1),
{
    let limit = dy * s + dx;
    let target = painted_upto(c0, w, x, y, s, color, shape, r, limit + 1);
    let j = (y + dy) * w + (x + dx);
    if hit {
        lemma_pixel_index(w, x + dx, y + dy);
        assert(0 <= j) by (nonlinear_arith)
            requires
                0 <= y + dy,
                0 < w,
                0 <= x + dx,
                j == (y + dy) * w + (x + dx),
        ;
        assert(j < w * h) by (nonlinear_arith)
            requires
                0 <= y + dy,
                0 <= x + dx,
                0 < w,
                x + dx < w,
                y + dy < h,
                j == (y + dy) * w + (x + dx),
        ;
    }
    assert forall|i: int| 0 <= i < c0.len() implies #[trigger] after[i] == target[i] by {
        lemma_index_split(w, i);
        let ddx = i % w - x;
        let ddy = i / w - y;
        if 0 <= ddx < s && 0 <= ddy < s && ddy * s + ddx == limit {
            lemma_offset_unique(s, ddx, ddy, dx, dy);
            assert(i / w < h) by (nonlinear_arith)
                requires
                    i == (i / w) * w + i % w,
                    0 <= i % w,
                    i < w * h,
                    0 < w,
            ;
            assert(i == j);
        } else if hit && i == j {
            assert(ddx == dx && ddy == dy);
        }
    }
    assert(after =~= target);
}

/// Paints the module of side `size` at `(x, y)` in `shape`, clipped to the
/// canvas.
fn fill_module(
    image: &mut Canvas,
    x: u32,
    y: u32,
    size: u32,
    color: [u8; 4],
    shape: ModuleStyle,
    radius: u32,
)
    requires
        old(image).wf(),
        radius <= size,
    ensures
        final(image).wf(),
        final(image).width == old(image).width,
        final(image).height == old(image).height,
        final(image).pixels@ == painted(
            old(image).pixels@,
            old(image).width as int,
            x as int,
            y as int,
            size as int,
            color,
            shape,
            radius as int,
        ),
{
    let ghost c0 = image.pixels@;
    let ghost w = image.width as int;
    let ghost s = size as int;
    let width = image.width;
    let height = image.height;
    if width == 0 {
        assert(image.pixels@ =~= painted(c0, w, x as int, y as int, s, color, shape, radius as int));
        return;
    }
    let mut dy: u32 = 0;
    assert(image.pixels@ =~= painted_upto(c0, w, x as int, y as int, s, color, shape, radius as int, 0));
    while dy < size
        invariant
            image.wf(),
            image.width == width,
            image.height == height,
            w == width,
            0 < width,
            s == size,
            radius <= size,
            c0.len() == width * height,
            dy <= size,
            image.pixels@ == painted_upto(c0, w, x as int, y as int, s, color, shape, radius as int, dy * s),
        decreases size - dy,
    {
        let mut dx: u32 = 0;
        while dx < size
            invariant
                image.wf(),
                image.width == width,
                image.height == height,
                w == width,
                0 < width,
                s == size,
                radius <= size,
                c0.len() == width * height,
                dy < size,
                dx <= size,
                image.pixels@ == painted_upto(
                    c0,
                    w,
                    x as int,
                    y as int,
                    s,
                    color,
                    shape,
                    radius as int,
                    dy * s + dx,
                ),
            decreases size - dx,
        {
            let ghost before = image.pixels@;
            let ghost limit = dy * s + dx;
            let px: u64 = x as u64 + dx as u64;
            let py: u64 = y as u64 + dy as u64;
            let hit = px < width as u64 && py < height as u64 && covers(shape, size, radius, dx, dy);
            if hit {
                image.put_pixel(px as u32, py as u32, color);
            }
            proof {
                if hit {
                    assert(py as u32 == py && px as u32 == px);
                }
                lemma_paint_step(
                    before,
                    image.pixels@,
                    c0,
                    w,
                    height as int,
                    x as int,
                    y as int,
                    s,
                    color,
                    shape,
                    radius as int,
                    dx as int,
                    dy as int,
                    hit,
                );
            }
            dx = dx + 1;
        }
        proof {
            assert((dy + 1) * s == dy * s + s) by (nonlinear_arith);
        }
        dy = dy + 1;
    }
    proof {
        assert forall|i: int| 0 <= i < c0.len() implies #[trigger] image.pixels@[i] == painted(
            c0,
            w,
            x as int,
            y as int,
            s,
            color,
            shape,
            radius as int,
        )[i] by {
            let ddx = i % w - x;
            let ddy = i / w - y;
            if 0 <= ddx < s && 0 <= ddy < s {
                lemma_offset_below_area(s, ddx, ddy);
            }
        }
        assert(image.pixels@ =~= painted(c0, w, x as int, y as int, s, color, shape, radius as int));
    }
}

/// Paints the whole `size` by `size` square at `(x, y)`.
pub fn draw_square(image: &mut Canvas, x: u32, y: u32, size: u32, color: [u8; 4])
    requires
        old(image).wf(),
    ensures
        final(image).wf(),
        final(image).width == old(image).width,
        final(image).height == old(image).height,
        final(image).pixels@ == painted(
            old(image).pixels@,
            old(image).width as int,
            x as int,
            y as int,
            size as int,
            color,
            ModuleStyle::Square,
            0,
        ),
{
    fill_module(image, x, y, size, color, ModuleStyle::Square, 0);
}

/// Paints the circle inscribed in the `size` by `size` square at `(x, y)`.
pub fn draw_circle(image: &mut Canvas, x: u32, y: u32, size: u32, color: [u8; 4])
    requires
        old(image).wf(),
    ensures
        final(image).wf(),
        final(image).width == old(image).width,
        final(image).height == old(image).height,
        final(image).pixels@ == painted(
            old(image).pixels@,
            old(image).width as int,
            x as int,
            y as int,
            size as int,
            color,
            ModuleStyle::Circle,
            0,
        ),
{
    fill_module(image, x, y, size, color, ModuleStyle::Circle, 0);
}

/// Paints the `size` by `size` square at `(x, y)` with its corners rounded
/// to the radius that `rounding` gives.
pub fn draw_rounded_square(
    image: &mut Canvas,
    x: u32,
    y: u32,
    size: u32,
    color: [u8; 4],
    rounding: &Rounding,
)
    requires
        old(image).wf(),
        rounding.wf(),
    ensures
        final(image).wf(),
        final(image).width == old(image).width,
        final(image).height == old(image).height,
        final(image).pixels@ == painted(
            old(image).pixels@,
            old(image).width as int,
            x as int,
            y as int,
            size as int,
            color,
            ModuleStyle::RoundedSquare,
            rounding.radius_spec(size as int),
        ),
{
    let radius = rounding.radius_px(size);
    fill_module(image, x, y, size, color, ModuleStyle::RoundedSquare, radius);
}

/// Paints a dot of 70% of the module's side, centred in the `size` by
/// `size` square at `(x, y)`.
pub fn draw_dot(image: &mut Canvas, x: u32, y: u32, size: u32, color: [u8; 4])
    requires
        old(image).wf(),
    ensures
        final(image).wf(),
        final(image).width == old(image).width,
        final(image).height == old(image).height,
        final(image).pixels@ == painted(
            old(image).pixels@,
            old(image).width as int,
            x as int,
            y as int,
            size as int,
            color,
            ModuleStyle::Dots,
            0,
        ),
{
    fill_module(image, x, y, size, color, ModuleStyle::Dots, 0);
}

/// Colour of a data module whose top-left pixel is `(x, y)` on a `w` by `h`
/// canvas: the gradient's colour there, else the flat foreground.
pub open spec fn module_color(style: QrStyle, x: int, y: int, w: int, h: int) -> [u8; 4] {
    match style.gradient {
        Some(g) => gradient_color_spec(x, y, w, h, g, style.foreground),
        None => opaque(style.foreground),
    }
}

/// Colour of a finder-pattern module: the eye colour when one is set, else
/// that of a data module at the same place.
pub open spec fn eye_color_spec(style: QrStyle, x: int, y: int, w: int, h: int) -> [u8; 4] {
    match style.eye_color {
        Some(c) => opaque(c),
        None => module_color(style, x, y, w, h),
    }
}

/// Corner radius used for a data module of side `s`.
pub open spec fn data_radius(style: QrStyle, s: int) -> int {
    if style.module_style == ModuleStyle::RoundedSquare {
        style.rounding.radius_spec(s)
    } else {
        0
    }
}

/// Circle eyes: the two outer rings and the centre are painted, the moat
/// between them is not.
pub open spec fn circle_eye_paints(rx: int, ry: int) -> bool {
    ((rx <= 1 || rx >= 5 || ry <= 1 || ry >= 5) && !(rx == 3 && ry == 3)) || (rx == 3 && ry
        == 3)
}

/// Flower eyes: the outermost ring and the inner 3x3 block are painted.
pub open spec fn flower_eye_paints(rx: int, ry: int) -> bool {
    (rx == 0 || rx == 6 || ry == 0 || ry == 6) || (2 <= rx <= 4 && 2 <= ry <= 4)
}

pub open spec fn abs_diff(a: int, b: int) -> int {
    if a >= b {
        a - b
    } else {
        b - a
    }
}

/// Diamond eyes: the rings at Manhattan distance 1 and 3 from the centre.
pub open spec fn diamond_eye_paints(rx: int, ry: int) -> bool {
    let d = abs_diff(rx, 3) + abs_diff(ry, 3);
    d == 1 || d == 3
}

/// The shape and corner radius of the eye module at `(rx, ry)` within its
/// 7x7 block, or `None` when it is left unpainted.
pub open spec fn eye_stroke(
    eye: EyeStyle,
    rounding: Rounding,
    rx: int,
    ry: int,
    s: int,
) -> Option<(ModuleStyle, int)> {
    match eye {
        EyeStyle::Standard => Some((ModuleStyle::Square, 0)),
        EyeStyle::Circle => if circle_eye_paints(rx, ry) {
            Some((ModuleStyle::Circle, 0))
        } else {
            None
        },
        EyeStyle::RoundedSquare => Some((ModuleStyle::RoundedSquare, rounding.radius_spec(s))),
        EyeStyle::Flower => if !flower_eye_paints(rx, ry) {
            None
        } else if (rx + ry) % 2 == 0 {
            Some((ModuleStyle::Circle, 0))
        } else {
            Some((ModuleStyle::RoundedSquare, default_corner_fraction().scale(s)))
        },
        EyeStyle::Diamond => if diamond_eye_paints(rx, ry) {
            Some((ModuleStyle::Square, 0))
        } else {
            None
        },
    }
}

/// `c` after the eye module at `(rx, ry)` of its block, of side `s` and
/// anchored at pixel `(x, y)`, is painted `color`.
pub open spec fn eye_painted(
    c: Seq<[u8; 4]>,
    w: int,
    x: int,
    y: int,
    s: int,
    color: [u8; 4],
    eye: EyeStyle,
    rounding: Rounding,
    rx: int,
    ry: int,
) -> Seq<[u8; 4]> {
    match eye_stroke(eye, rounding, rx, ry, s) {
        Some(stroke) => painted(c, w, x, y, s, color, stroke.0, stroke.1),
        None => c,
    }
}

/// Position of module `(x, y)` inside the first 7x7 block of `eyes` (given by
/// top-left corners) that contains it.
pub open spec fn eye_at(eyes: Seq<(usize, usize)>, x: int, y: int) -> Option<(int, int)>
    decreases eyes.len(),
{
    if eyes.len() == 0 {
        None
    } else {
        let ex = eyes[0].0 as int;
        let ey = eyes[0].1 as int;
        if ex <= x < ex + 7 && ey <= y < ey + 7 {
            Some((x - ex, y - ey))
        } else {
            eye_at(eyes.drop_first(), x, y)
        }
    }
}

/// The colour of a data module at pixel `(x, y)` of a `width` by `height`
/// canvas.
fn resolve_module_color(style: &QrStyle, x: u32, y: u32, width: u32, height: u32) -> (r: [u8; 4])
    requires
        0 < width,
        0 < height,
        x <= width,
        y <= height,
    ensures
        r == module_color(*style, x as int, y as int, width as int, height as int),
{
    match &style.gradient {
        Some(g) => get_gradient_color(x, y, width, height, g, style.foreground),
        None => {
            let c = [style.foreground[0], style.foreground[1], style.foreground[2], 255u8];
            assert(c@ =~= opaque(style.foreground)@);
            c
        },
    }
}

/// Draws a data (non-finder) module of side `size` at pixel `(px, py)` in
/// the style's module shape and colour; `_x` and `_y` are its place in the
/// module grid.
pub fn draw_data_module(
    image: &mut Canvas,
    style: &QrStyle,
    _x: usize,
    _y: usize,
    px: u32,
    py: u32,
    size: u32,
)
    requires
        old(image).wf(),
        style.wf(),
        0 < old(image).width,
        0 < old(image).height,
        px <= old(image).width,
        py <= old(image).height,
    ensures
        final(image).wf(),
        final(image).width == old(image).width,
        final(image).height == old(image).height,
        final(image).pixels@ == painted(
            old(image).pixels@,
            old(image).width as int,
            px as int,
            py as int,
            size as int,
            module_color(*style, px as int, py as int, old(image).width as int, old(image).height as int),
            style.module_style,
            data_radius(*style, size as int),
        ),
{
    let color = resolve_module_color(style, px, py, image.width, image.height);
    match style.module_style {
        ModuleStyle::Square => draw_square(image, px, py, size, color),
        ModuleStyle::Circle => draw_circle(image, px, py, size, color),
        ModuleStyle::RoundedSquare => draw_rounded_square(image, px, py, size, color, &style.rounding),
        ModuleStyle::Dots => draw_dot(image, px, py, size, color),
    }
}

/// Circle eye: circles on the rings and at the centre, nothing in the moat.
fn draw_eye_circle(
    image: &mut Canvas,
    px: u32,
    py: u32,
    size: u32,
    color: [u8; 4],
    rel_x: usize,
    rel_y: usize,
)
    requires
        old(image).wf(),
    ensures
        final(image).wf(),
        final(image).width == old(image).width,
        final(image).height == old(image).height,
        final(image).pixels@ == if circle_eye_paints(rel_x as int, rel_y as int) {
            painted(
                old(image).pixels@,
                old(image).width as int,
                px as int,
                py as int,
                size as int,
                color,
                ModuleStyle::Circle,
                0,
            )
        } else {
            old(image).pixels@
        },
{
    if (rel_x <= 1 || rel_x >= 5 || rel_y <= 1 || rel_y >= 5) && !(rel_x == 3 && rel_y == 3) {
        draw_circle(image, px, py, size, color);
    } else if rel_x == 3 && rel_y == 3 {
        draw_circle(image, px, py, size, color);
    }
}

/// Rounded-square eye, with the style's own rounding.
fn draw_eye_rounded(
    image: &mut Canvas,
    px: u32,
    py: u32,
    size: u32,
    color: [u8; 4],
    rounding: &Rounding,
)
    requires
        old(image).wf(),
        rounding.wf(),
    ensures
        final(image).wf(),
        final(image).width == old(image).width,
        final(image).height == old(image).height,
        final(image).pixels@ == painted(
            old(image).pixels@,
            old(image).width as int,
            px as int,
            py as int,
            size as int,
            color,
            ModuleStyle::RoundedSquare,
            rounding.radius_spec(size as int),
        ),
{
    draw_rounded_square(image, px, py, size, color, rounding);
}

/// Flower eye: on the outer ring and the inner block, circles and
/// rounded squares alternate; the petals always use the default rounding.
fn draw_eye_flower(
    image: &mut Canvas,
    px: u32,
    py: u32,
    size: u32,
    color: [u8; 4],
    rel_x: usize,
    rel_y: usize,
)
    requires
        old(image).wf(),
        rel_x < 7,
        rel_y < 7,
    ensures
        final(image).wf(),
        final(image).width == old(image).width,
        final(image).height == old(image).height,
        final(image).pixels@ == if !flower_eye_paints(rel_x as int, rel_y as int) {
            old(image).pixels@
        } else if (rel_x + rel_y) % 2 == 0 {
            painted(
                old(image).pixels@,
                old(image).width as int,
                px as int,
                py as int,
                size as int,
                color,
                ModuleStyle::Circle,
                0,
            )
        } else {
            painted(
                old(image).pixels@,
                old(image).width as int,
                px as int,
                py as int,
                size as int,
                color,
                ModuleStyle::RoundedSquare,
                default_corner_fraction().scale(size as int),
            )
        },
{
    let is_outer = rel_x == 0 || rel_x == 6 || rel_y == 0 || rel_y == 6;
    let is_inner = (rel_x >= 2 && rel_x <= 4) && (rel_y >= 2 && rel_y <= 4);
    if is_outer || is_inner {
        if (rel_x + rel_y) % 2 == 0 {
            draw_circle(image, px, py, size, color);
        } else {
            let petal = Rounding::standard();
            draw_rounded_square(image, px, py, size, color, &petal);
        }
    }
}

/// Diamond eye: plain squares on the rings at Manhattan distance 1 and 3
/// from the centre.
fn draw_eye_diamond(
    image: &mut Canvas,
    px: u32,
    py: u32,
    size: u32,
    color: [u8; 4],
    rel_x: usize,
    rel_y: usize,
)
    requires
        old(image).wf(),
        rel_x < 7,
        rel_y < 7,
    ensures
        final(image).wf(),
        final(image).width == old(image).width,
        final(image).height == old(image).height,
        final(image).pixels@ == if diamond_eye_paints(rel_x as int, rel_y as int) {
            painted(
                old(image).pixels@,
                old(image).width as int,
                px as int,
                py as int,
                size as int,
                color,
                ModuleStyle::Square,
                0,
            )
        } else {
            old(image).pixels@
        },
{
    let ax: usize = if rel_x >= 3 {
        rel_x - 3
    } else {
        3 - rel_x
    };
    let ay: usize = if rel_y >= 3 {
        rel_y - 3
    } else {
        3 - rel_y
    };
    let dist = ax + ay;
    if dist == 3 || dist == 1 {
        draw_square(image, px, py, size, color);
    }
}

/// Draws a finder-pattern module: `(x, y)` is its place in the module grid,
/// `(px, py)` its top-left pixel, and `eye_positions` the top-left corners of
/// the 7x7 finder blocks; the first block containing the module decides its
/// position within the eye, and the eye style decides what is painted there.
pub fn draw_eye_module(
    image: &mut Canvas,
    style: &QrStyle,
    x: usize,
    y: usize,
    px: u32,
    py: u32,
    size: u32,
    eye_positions: &[(usize, usize)],
)
    requires
        old(image).wf(),
        style.wf(),
        0 < old(image).width,
        0 < old(image).height,
        px <= old(image).width,
        py <= old(image).height,
    ensures
        final(image).wf(),
        final(image).width == old(image).width,
        final(image).height == old(image).height,
        final(image).pixels@ == match eye_at(eye_positions@, x as int, y as int) {
            Some(rel) => eye_painted(
                old(image).pixels@,
                old(image).width as int,
                px as int,
                py as int,
                size as int,
                eye_color_spec(*style, px as int, py as int, old(image).width as int, old(image).height as int),
                style.eye_style,
                style.rounding,
                rel.0,
                rel.1,
            ),
            None => old(image).pixels@,
        },
{
    let color = match style.eye_color {
        Some(c) => {
            let o = [c[0], c[1], c[2], 255u8];
            assert(o@ =~= opaque(c)@);
            o
        },
        None => resolve_module_color(style, px, py, image.width, image.height),
    };
    let mut i: usize = 0;
    assert(eye_positions@.subrange(0, eye_positions@.len() as int) =~= eye_positions@);
    while i < eye_positions.len()
        invariant
            image.wf(),
            image.width == old(image).width,
            image.height == old(image).height,
            image.pixels@ == old(image).pixels@,
            color == eye_color_spec(*style, px as int, py as int, image.width as int, image.height as int),
            style.wf(),
            i <= eye_positions@.len(),
            eye_at(eye_positions@, x as int, y as int) == eye_at(
                eye_positions@.subrange(i as int, eye_positions@.len() as int),
                x as int,
                y as int,
            ),
        decreases eye_positions.len() - i,
    {
        let (ex, ey) = eye_positions[i];
        let ghost rest = eye_positions@.subrange(i as int, eye_positions@.len() as int);
        assert(rest[0] == eye_positions@[i as int]);
        assert(rest.drop_first() =~= eye_positions@.subrange(i + 1, eye_positions@.len() as int));
        if x >= ex && x - ex < 7 && y >= ey && y - ey < 7 {
            let rel_x = x - ex;
            let rel_y = y - ey;
            match style.eye_style {
                EyeStyle::Standard => draw_square(image, px, py, size, color),
                EyeStyle::Circle => draw_eye_circle(image, px, py, size, color, rel_x, rel_y),
                EyeStyle::RoundedSquare => draw_eye_rounded(image, px, py, size, color, &style.rounding),
                EyeStyle::Flower => draw_eye_flower(image, px, py, size, color, rel_x, rel_y),
                EyeStyle::Diamond => draw_eye_diamond(image, px, py, size, color, rel_x, rel_y),
            }
            return;
        }
        i = i + 1;
    }
}

/// The circle, dot and rounded-square modules are symmetric about both
/// axes through the module's centre, for odd and even `s`: the pixel at
/// offset `dx` and its mirror image at `s - 1 - dx` are painted alike, and
/// likewise for `dy` (for rounded squares whose corner radius is at most half
/// the side).
pub proof fn lemma_shapes_symmetric(s: int, r: int, dx: int, dy: int)
    requires
        0 <= dx < s,
        0 <= dy < s,
        0 <= r,
        2 * r <= s,
    ensures
        circle_covers(s, dx, dy) == circle_covers(s, s - 1 - dx, dy),
        circle_covers(s, dx, dy) == circle_covers(s, dx, s - 1 - dy),
        dot_covers(s, dx, dy) == dot_covers(s, s - 1 - dx, dy),
        dot_covers(s, dx, dy) == dot_covers(s, dx, s - 1 - dy),
        rounded_covers(s, r, dx, dy) == rounded_covers(s, r, s - 1 - dx, dy),
        rounded_covers(s, r, dx, dy) == rounded_covers(s, r, dx, s - 1 - dy),
{
    assert(centre_offset(s - 1 - dx, s) == -centre_offset(dx, s));
    assert(centre_offset(s - 1 - dy, s) == -centre_offset(dy, s));
    assert((-centre_offset(dx, s)) * (-centre_offset(dx, s)) == centre_offset(dx, s) * centre_offset(dx, s))
        by (nonlinear_arith);
    assert((-centre_offset(dy, s)) * (-centre_offset(dy, s)) == centre_offset(dy, s) * centre_offset(dy, s))
        by (nonlinear_arith);
    let mx = s - 1 - dx;
    let my = s - 1 - dy;
    if dx < r || dx >= s - r {
        assert(2 * mx + 1 - arc_centre2(mx, s, r) == -(2 * dx + 1 - arc_centre2(dx, s, r)));
    }
    if dy < r || dy >= s - r {
        assert(2 * my + 1 - arc_centre2(my, s, r) == -(2 * dy + 1 - arc_centre2(dy, s, r)));
    }
    let ex = 2 * dx + 1 - arc_centre2(dx, s, r);
    let ey = 2 * dy + 1 - arc_centre2(dy, s, r);
    assert((-ex) * (-ex) == ex * ex && (-ey) * (-ey) == ey * ey) by (nonlinear_arith);
}

/// Drawing a circle paints exactly the pixels of the module's box, inside
/// the canvas, whose centre lies within half the side of the module's
/// centre, and leaves every other pixel as it was.
pub proof fn lemma_circle_fill_exact(
    c: Seq<[u8; 4]>,
    w: int,
    x: int,
    y: int,
    s: int,
    color: [u8; 4],
    dx: int,
    dy: int,
)
    requires
        0 < w,
        0 <= x + dx < w,
        0 <= y + dy,
        (y + dy) * w + (x + dx) < c.len(),
    ensures
        painted(c, w, x, y, s, color, ModuleStyle::Circle, 0)[(y + dy) * w + (x + dx)] == if 0 <= dx
            < s && 0 <= dy < s && (2 * dx + 1 - s) * (2 * dx + 1 - s) + (2 * dy + 1 - s) * (2 * dy + 1
            - s) <= s * s {
            color
        } else {
            c[(y + dy) * w + (x + dx)]
        },
{
    lemma_pixel_index(w, x + dx, y + dy);
    assert(0 <= (y + dy) * w) by (nonlinear_arith)
        requires
            0 <= y + dy,
            0 < w,
    ;
}

} // verus!
