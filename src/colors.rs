//! Gradient field and colour interpolation.
//!
//! An interpolation factor `t` in `[0, 1]` is held as its square, the exact
//! fraction `num / den`: positional factors such as `x / width` are rational,
//! while the radial factor (a ratio of two Euclidean distances) is the square
//! root of one. Channels are `floor(a * (1 - t) + b * t)`, computed exactly.

use vstd::prelude::*;
use crate::types::GradientType;

verus! {

/// A gradient: the direction it runs in and the colour it ends at; it starts
/// at the foreground colour.
#[derive(Debug, Clone, Copy, PartialEq, Eq)]
pub struct Gradient {
    pub mode: GradientType,
    pub end_color: [u8; 3],
}

/// Largest denominator a factor may have, so that channel arithmetic stays
/// within 128 bits.
pub open spec fn factor_den_limit() -> int {
    0x4_0000_0000_0000_0000
}

/// Interpolation factor `t = sqrt(num / den)`.
#[derive(Debug, Clone, Copy, PartialEq, Eq, Structural)]
pub struct BlendFactor {
    pub num: u128,
    pub den: u128,
}

impl BlendFactor {
    pub open spec fn wf(&self) -> bool {
        0 < self.den <= factor_den_limit() && self.num <= self.den
    }

    /// The factor `n / d`.
    pub fn linear(n: u64, d: u64) -> (r: BlendFactor)
        requires
            0 < d <= 0x2_0000_0000,
            n <= d,
        ensures
            r.wf(),
            r.num == n * n,
            r.den == d * d,
    {
        proof {
            assert(n * n <= d * d <= 0x2_0000_0000 * 0x2_0000_0000) by (nonlinear_arith)
                requires
                    n <= d <= 0x2_0000_0000,
            ;
            assert(0 < d * d) by (nonlinear_arith)
                requires
                    0 < d,
            ;
        }
        BlendFactor { num: n as u128 * n as u128, den: d as u128 * d as u128 }
    }
}

/// The largest `j <= k` with `j * j * q <= p` (zero when there is none).
pub open spec fn root_floor(p: int, q: int, k: nat) -> nat
    decreases k,
{
    if k == 0 {
        0
    } else if k * k * q <= p {
        k
    } else {
        root_floor(p, q, (k - 1) as nat)
    }
}

/// The smallest `j <= k` with `j * j * q >= p`, given that `k` is one.
pub open spec fn root_ceil(p: int, q: int, k: nat) -> nat
    decreases k,
{
    if k == 0 {
        0
    } else if (k - 1) * (k - 1) * q >= p {
        root_ceil(p, q, (k - 1) as nat)
    } else {
        k
    }
}

/// `floor(a + (b - a) * t)` for `t = sqrt(num / den)`.
pub open spec fn lerp_spec(a: u8, b: u8, t: BlendFactor) -> int {
    if a <= b {
        let m = b - a;
        a + root_floor(m * m * t.num, t.den as int, m as nat)
    } else {
        let m = a - b;
        a - root_ceil(m * m * t.num, t.den as int, m as nat)
    }
}

/// The opaque colour that interpolates `c1` towards `c2` by `t`.
pub open spec fn interpolate_spec(c1: [u8; 3], c2: [u8; 3], t: BlendFactor) -> [u8; 4] {
    [
        lerp_spec(c1[0], c2[0], t) as u8,
        lerp_spec(c1[1], c2[1], t) as u8,
        lerp_spec(c1[2], c2[2], t) as u8,
        255u8,
    ]
}

/// `c` made fully opaque.
pub open spec fn opaque(c: [u8; 3]) -> [u8; 4] {
    [c[0], c[1], c[2], 255u8]
}

/// The squared interpolation factor of pixel `(x, y)` on a `w` by `h`
/// canvas, as `(num, den)`.
pub open spec fn factor_spec(mode: GradientType, x: int, y: int, w: int, h: int) -> (int, int) {
    match mode {
        GradientType::Horizontal => (x * x, w * w),
        GradientType::Vertical => (y * y, h * h),
        GradientType::Diagonal => ((x + y) * (x + y), (w + h) * (w + h)),
        GradientType::Radial => {
            // distances to the centre (w/2, h/2), both doubled
            let d = (2 * x - w) * (2 * x - w) + (2 * y - h) * (2 * y - h);
            let m = w * w + h * h;
            (if d <= m { d } else { m }, m)
        },
    }
}

/// The colour that `gradient` gives pixel `(x, y)` of a `w` by `h` canvas,
/// starting from `fg`.
pub open spec fn gradient_color_spec(
    x: int,
    y: int,
    w: int,
    h: int,
    gradient: Gradient,
    fg: [u8; 3],
) -> [u8; 4] {
    let f = factor_spec(gradient.mode, x, y, w, h);
    interpolate_spec(fg, gradient.end_color, BlendFactor { num: f.0 as u128, den: f.1 as u128 })
}

proof fn lemma_root_floor_le(p: int, q: int, k: nat)
    ensures
        root_floor(p, q, k) <= k,
    decreases k,
{
    if k > 0 {
        lemma_root_floor_le(p, q, (k - 1) as nat);
    }
}

proof fn lemma_root_ceil_le(p: int, q: int, k: nat)
    ensures
        root_ceil(p, q, k) <= k,
    decreases k,
{
    if k > 0 {
        lemma_root_ceil_le(p, q, (k - 1) as nat);
    }
}

/// The interpolated channel lies between the two end channels.
pub proof fn lemma_lerp_between(a: u8, b: u8, t: BlendFactor)
    ensures
        a <= b ==> a <= lerp_spec(a, b, t) <= b,
        b < a ==> b <= lerp_spec(a, b, t) <= a,
{
    if a <= b {
        lemma_root_floor_le(((b - a) * (b - a) * t.num) as int, t.den as int, (b - a) as nat);
    } else {
        lemma_root_ceil_le(((a - b) * (a - b) * t.num) as int, t.den as int, (a - b) as nat);
    }
}

proof fn lemma_square_bound(k: int, q: int)
    requires
        0 <= k <= 255,
        0 <= q <= factor_den_limit(),
    ensures
        0 <= k * k <= 255 * 255,
        0 <= k * k * q <= 255 * 255 * factor_den_limit(),
{
    assert(0 <= k * k <= 255 * 255) by (nonlinear_arith)
        requires
            0 <= k <= 255,
    ;
    assert(0 <= k * k * q <= 255 * 255 * factor_den_limit()) by (nonlinear_arith)
        requires
            0 <= k * k <= 255 * 255,
            0 <= q <= factor_den_limit(),
    ;
}

/// `floor(a * (1 - t) + b * t)`, exactly.
pub fn lerp(a: u8, b: u8, t: BlendFactor) -> (r: u8)
    requires
        t.wf(),
    ensures
        r == lerp_spec(a, b, t),
{
    proof {
        lemma_lerp_between(a, b, t);
    }
    if a <= b {
        let m: u128 = (b - a) as u128;
        proof {
            lemma_square_bound(m as int, t.num as int);
            lemma_square_bound(m as int, t.den as int);
        }
        let p: u128 = m * m * t.num;
        let mut k: u128 = m;
        while k > 0 && k * k * t.den > p
            invariant
                k <= m <= 255,
                t.wf(),
                p == m * m * t.num,
                k * k <= 255 * 255,
                k * k * t.den <= 255 * 255 * factor_den_limit(),
                root_floor(p as int, t.den as int, k as nat) == root_floor(
                    p as int,
                    t.den as int,
                    m as nat,
                ),
            decreases k,
        {
            k = k - 1;
            proof {
                lemma_square_bound(k as int, t.den as int);
            }
        }
        a + k as u8
    } else {
        let m: u128 = (a - b) as u128;
        proof {
            lemma_square_bound(m as int, t.num as int);
            lemma_square_bound(m as int - 1, t.den as int);
        }
        let p: u128 = m * m * t.num;
        let mut k: u128 = m;
        while k > 0 && (k - 1) * (k - 1) * t.den >= p
            invariant
                k <= m <= 255,
                t.wf(),
                p == m * m * t.num,
                k > 0 ==> (k - 1) * (k - 1) <= 255 * 255,
                k > 0 ==> (k - 1) * (k - 1) * t.den <= 255 * 255 * factor_den_limit(),
                root_ceil(p as int, t.den as int, k as nat) == root_ceil(
                    p as int,
                    t.den as int,
                    m as nat,
                ),
            decreases k,
        {
            k = k - 1;
            proof {
                if k > 0 {
                    lemma_square_bound(k as int - 1, t.den as int);
                }
            }
        }
        a - k as u8
    }
}

/// The opaque colour between `color1` (at `t = 0`) and `color2` (at `t = 1`).
pub fn interpolate_rgb(color1: [u8; 3], color2: [u8; 3], t: BlendFactor) -> (r: [u8; 4])
    requires
        t.wf(),
    ensures
        r == interpolate_spec(color1, color2, t),
{
    let r = lerp(color1[0], color2[0], t);
    let g = lerp(color1[1], color2[1], t);
    let b = lerp(color1[2], color2[2], t);
    let out = [r, g, b, 255u8];
    assert(out@ =~= interpolate_spec(color1, color2, t)@);
    out
}

/// The squared interpolation factor of pixel `(x, y)` on a `width` by
/// `height` canvas.
pub fn gradient_factor(mode: GradientType, x: u32, y: u32, width: u32, height: u32) -> (r:
    BlendFactor)
    requires
        0 < width,
        0 < height,
        x <= width,
        y <= height,
    ensures
        r.wf(),
        (r.num as int, r.den as int) == factor_spec(mode, x as int, y as int, width as int, height as int),
{
    match mode {
        GradientType::Horizontal => BlendFactor::linear(x as u64, width as u64),
        GradientType::Vertical => BlendFactor::linear(y as u64, height as u64),
        GradientType::Diagonal => BlendFactor::linear(
            x as u64 + y as u64,
            width as u64 + height as u64,
        ),
        GradientType::Radial => {
            let dx: i128 = 2 * (x as i128) - width as i128;
            let dy: i128 = 2 * (y as i128) - height as i128;
            proof {
                assert(dx * dx <= 0x2_0000_0000 * 0x2_0000_0000) by (nonlinear_arith)
                    requires
                        -0x2_0000_0000 <= dx <= 0x2_0000_0000,
                ;
                assert(dy * dy <= 0x2_0000_0000 * 0x2_0000_0000) by (nonlinear_arith)
                    requires
                        -0x2_0000_0000 <= dy <= 0x2_0000_0000,
                ;
                assert(0 <= dx * dx && 0 <= dy * dy) by (nonlinear_arith);
                assert(width as int * width as int <= 0x1_0000_0000 * 0x1_0000_0000) by (nonlinear_arith)
                    requires
                        width <= 0x1_0000_0000,
                ;
                assert(height as int * height as int <= 0x1_0000_0000 * 0x1_0000_0000) by (nonlinear_arith)
                    requires
                        height <= 0x1_0000_0000,
                ;
                assert(0 < width as int * width as int) by (nonlinear_arith)
                    requires
                        0 < width,
                ;
                assert(0 <= height as int * height as int) by (nonlinear_arith);
            }
            let d: u128 = (dx * dx) as u128 + (dy * dy) as u128;
            let m: u128 = width as u128 * width as u128 + height as u128 * height as u128;
            let num = if d <= m {
                d
            } else {
                m
            };
            BlendFactor { num, den: m }
        },
    }
}

/// Position along a linear gradient as `(n, d)`, for `t = n / d`: `x / w`
/// horizontally, `y / h` vertically, `(x + y) / (w + h)` diagonally.
pub open spec fn linear_position(mode: GradientType, x: int, y: int, w: int, h: int) -> (int, int) {
    match mode {
        GradientType::Horizontal => (x, w),
        GradientType::Vertical => (y, h),
        _ => (x + y, w + h),
    }
}

/// The colour that `gradient` gives pixel `(x, y)` of a `width` by `height`
/// canvas, starting from the foreground colour `fg`; for the linear modes
/// each channel is `floor(fg * (1 - t) + end * t)` with `t = n / d` the
/// position along the gradient.
pub fn get_gradient_color(
    x: u32,
    y: u32,
    width: u32,
    height: u32,
    gradient: &Gradient,
    fg: [u8; 3],
) -> (r: [u8; 4])
    requires
        0 < width,
        0 < height,
        x <= width,
        y <= height,
    ensures
        r == gradient_color_spec(x as int, y as int, width as int, height as int, *gradient, fg),
        r[3] == 255,
        gradient.mode != GradientType::Radial ==> ({
            let (n, d) = linear_position(gradient.mode, x as int, y as int, width as int, height as int);
            forall|c: int|
                0 <= c < 3 ==> #[trigger] r[c] == (fg[c] * (d - n) + gradient.end_color[c] * n) / d
        }),
{
    let t = gradient_factor(gradient.mode, x, y, width, height);
    let r = interpolate_rgb(fg, gradient.end_color, t);
    proof {
        if gradient.mode != GradientType::Radial {
            let (n, d) = linear_position(gradient.mode, x as int, y as int, width as int, height as int);
            assert(t.num == n * n && t.den == d * d);
            assert forall|c: int| 0 <= c < 3 implies #[trigger] r[c] == (fg[c] * (d - n)
                + gradient.end_color[c] * n) / d by {
                lemma_lerp_linear(fg[c], gradient.end_color[c], n, d);
                assert(t == BlendFactor { num: (n * n) as u128, den: (d * d) as u128 });
                lemma_lerp_between(fg[c], gradient.end_color[c], t);
            }
        }
    }
    r
}

proof fn lemma_root_floor_zero(q: int, k: nat)
    requires
        0 < q,
    ensures
        root_floor(0, q, k) == 0,
    decreases k,
{
    if k > 0 {
        assert(k * k * q > 0) by (nonlinear_arith)
            requires
                k > 0,
                q > 0,
        ;
        lemma_root_floor_zero(q, (k - 1) as nat);
    }
}

proof fn lemma_root_ceil_zero(q: int, k: nat)
    requires
        0 < q,
    ensures
        root_ceil(0, q, k) == 0,
    decreases k,
{
    if k > 0 {
        assert((k - 1) * (k - 1) * q >= 0) by (nonlinear_arith)
            requires
                k > 0,
                q > 0,
        ;
        lemma_root_ceil_zero(q, (k - 1) as nat);
    }
}

/// A factor of exactly 0 gives the start channel, one of exactly 1 the end
/// channel.
pub proof fn lemma_lerp_ends(a: u8, b: u8, den: u128)
    requires
        0 < den,
    ensures
        lerp_spec(a, b, BlendFactor { num: 0, den }) == a,
        lerp_spec(a, b, BlendFactor { num: den, den }) == b,
{
    let q = den as int;
    if a <= b {
        let m = (b - a) as int;
        assert(m * m * 0 == 0) by (nonlinear_arith);
        lemma_root_floor_zero(q, m as nat);
    } else {
        let m = (a - b) as int;
        assert(m * m * 0 == 0) by (nonlinear_arith);
        lemma_root_ceil_zero(q, m as nat);
        assert((m - 1) * (m - 1) * q < m * m * q) by (nonlinear_arith)
            requires
                m >= 1,
                q > 0,
        ;
    }
}

/// At the extreme positions of every gradient mode the factor is exactly 0
/// or exactly 1 and the colour is exactly the start or the end colour:
/// horizontal at `x = 0` and `x = w`, vertical at `y = 0` and `y = h`,
/// diagonal at the top-left and bottom-right corners, radial at the centre
/// (when it falls on a pixel) and at the top-left corner.
pub proof fn lemma_gradient_extremes(w: int, h: int, x: int, y: int, fg: [u8; 3], end: [u8; 3])
    requires
        0 < w <= u32::MAX,
        0 < h <= u32::MAX,
        0 <= x <= w,
        0 <= y <= h,
    ensures
        factor_spec(GradientType::Horizontal, 0, y, w, h).0 == 0,
        factor_spec(GradientType::Horizontal, w, y, w, h).0 == factor_spec(GradientType::Horizontal, w, y, w, h).1,
        factor_spec(GradientType::Vertical, x, 0, w, h).0 == 0,
        factor_spec(GradientType::Vertical, x, h, w, h).0 == factor_spec(GradientType::Vertical, x, h, w, h).1,
        factor_spec(GradientType::Diagonal, 0, 0, w, h).0 == 0,
        factor_spec(GradientType::Diagonal, w, h, w, h).0 == factor_spec(GradientType::Diagonal, w, h, w, h).1,
        (2 * x == w && 2 * y == h) ==> factor_spec(GradientType::Radial, x, y, w, h).0 == 0,
        factor_spec(GradientType::Radial, 0, 0, w, h).0 == factor_spec(GradientType::Radial, 0, 0, w, h).1,
        gradient_color_spec(0, y, w, h, Gradient { mode: GradientType::Horizontal, end_color: end }, fg) == opaque(fg),
        gradient_color_spec(w, y, w, h, Gradient { mode: GradientType::Horizontal, end_color: end }, fg) == opaque(end),
        gradient_color_spec(x, 0, w, h, Gradient { mode: GradientType::Vertical, end_color: end }, fg) == opaque(fg),
        gradient_color_spec(x, h, w, h, Gradient { mode: GradientType::Vertical, end_color: end }, fg) == opaque(end),
        gradient_color_spec(0, 0, w, h, Gradient { mode: GradientType::Diagonal, end_color: end }, fg) == opaque(fg),
        gradient_color_spec(w, h, w, h, Gradient { mode: GradientType::Diagonal, end_color: end }, fg) == opaque(end),
        (2 * x == w && 2 * y == h) ==> gradient_color_spec(x, y, w, h, Gradient { mode: GradientType::Radial, end_color: end }, fg) == opaque(fg),
        gradient_color_spec(0, 0, w, h, Gradient { mode: GradientType::Radial, end_color: end }, fg) == opaque(end),
{
    assert(0 < w * w <= 0x1_0000_0000 * 0x1_0000_0000) by (nonlinear_arith)
        requires
            0 < w <= u32::MAX,
    ;
    assert(0 < h * h <= 0x1_0000_0000 * 0x1_0000_0000) by (nonlinear_arith)
        requires
            0 < h <= u32::MAX,
    ;
    assert(0 < (w + h) * (w + h) <= 0x2_0000_0000 * 0x2_0000_0000) by (nonlinear_arith)
        requires
            0 < w <= u32::MAX,
            0 < h <= u32::MAX,
    ;
    assert((0 - w) * (0 - w) == w * w && (0 - h) * (0 - h) == h * h) by (nonlinear_arith);
    let hw = (w * w) as u128;
    let hh = (h * h) as u128;
    let dg = ((w + h) * (w + h)) as u128;
    let rd = (w * w + h * h) as u128;
    lemma_lerp_ends(fg[0], end[0], hw);
    lemma_lerp_ends(fg[1], end[1], hw);
    lemma_lerp_ends(fg[2], end[2], hw);
    lemma_lerp_ends(fg[0], end[0], hh);
    lemma_lerp_ends(fg[1], end[1], hh);
    lemma_lerp_ends(fg[2], end[2], hh);
    lemma_lerp_ends(fg[0], end[0], dg);
    lemma_lerp_ends(fg[1], end[1], dg);
    lemma_lerp_ends(fg[2], end[2], dg);
    lemma_lerp_ends(fg[0], end[0], rd);
    lemma_lerp_ends(fg[1], end[1], rd);
    lemma_lerp_ends(fg[2], end[2], rd);
    assert(gradient_color_spec(0, y, w, h, Gradient { mode: GradientType::Horizontal, end_color: end }, fg)@ =~= opaque(fg)@);
    assert(gradient_color_spec(w, y, w, h, Gradient { mode: GradientType::Horizontal, end_color: end }, fg)@ =~= opaque(end)@);
    assert(gradient_color_spec(x, 0, w, h, Gradient { mode: GradientType::Vertical, end_color: end }, fg)@ =~= opaque(fg)@);
    assert(gradient_color_spec(x, h, w, h, Gradient { mode: GradientType::Vertical, end_color: end }, fg)@ =~= opaque(end)@);
    assert(gradient_color_spec(0, 0, w, h, Gradient { mode: GradientType::Diagonal, end_color: end }, fg)@ =~= opaque(fg)@);
    assert(gradient_color_spec(w, h, w, h, Gradient { mode: GradientType::Diagonal, end_color: end }, fg)@ =~= opaque(end)@);
    if 2 * x == w && 2 * y == h {
        assert(gradient_color_spec(x, y, w, h, Gradient { mode: GradientType::Radial, end_color: end }, fg)@ =~= opaque(fg)@);
    }
    assert(gradient_color_spec(0, 0, w, h, Gradient { mode: GradientType::Radial, end_color: end }, fg)@ =~= opaque(end)@);
}

proof fn lemma_root_floor_is(p: int, q: int, k: nat, j: nat)
    requires
        0 < q,
        j <= k,
        j * j * q <= p,
        forall|i: nat| j < i <= k ==> #[trigger] (i * i * q) > p,
    ensures
        root_floor(p, q, k) == j,
    decreases k,
{
    if k > j {
        assert(k * k * q > p);
        lemma_root_floor_is(p, q, (k - 1) as nat, j);
    }
}

proof fn lemma_root_ceil_is(p: int, q: int, k: nat, j: nat)
    requires
        0 < q,
        j <= k,
        j * j * q >= p,
        j > 0 ==> (j - 1) * (j - 1) * q < p,
    ensures
        root_ceil(p, q, k) == j,
    decreases k,
{
    if k > j {
        assert((k - 1) * (k - 1) * q >= j * j * q) by (nonlinear_arith)
            requires
                k - 1 >= j >= 0,
                q > 0,
        ;
        lemma_root_ceil_is(p, q, (k - 1) as nat, j);
    }
}

/// For a positional factor `t = n / d` (horizontal, vertical and diagonal
/// gradients) the channel is exactly `floor((a * (d - n) + b * n) / d)`,
/// that is `floor(a * (1 - t) + b * t)`.
pub proof fn lemma_lerp_linear(a: u8, b: u8, n: int, d: int)
    requires
        0 <= n <= d <= 0x2_0000_0000,
        0 < d,
    ensures
        lerp_spec(a, b, BlendFactor { num: (n * n) as u128, den: (d * d) as u128 }) == (a * (d - n)
            + b * n) / d,
{
    assert(0 <= n * n <= d * d <= 0x2_0000_0000 * 0x2_0000_0000) by (nonlinear_arith)
        requires
            0 <= n <= d <= 0x2_0000_0000,
    ;
    let q = d * d;
    assert(0 < q) by (nonlinear_arith)
        requires
            0 < d,
            q == d * d,
    ;
    let t = BlendFactor { num: (n * n) as u128, den: (d * d) as u128 };
    assert(t.num == n * n && t.den == q);
    if a <= b {
        let m = (b - a) as int;
        let x = m * n;
        let k = x / d;
        vstd::arithmetic::div_mod::lemma_fundamental_div_mod(x, d);
        assert(0 <= x <= d * m) by (nonlinear_arith)
            requires
                0 <= m,
                0 <= n <= d,
                x == m * n,
        ;
        assert(0 <= x % d < d);
        vstd::arithmetic::div_mod::lemma_div_pos_is_pos(x, d);
        vstd::arithmetic::div_mod::lemma_div_is_ordered(x, d * m, d);
        vstd::arithmetic::div_mod::lemma_div_multiples_vanish(m, d);
        assert(k <= m);
        assert(k * d <= x < (k + 1) * d) by (nonlinear_arith)
            requires
                x == d * (x / d) + x % d,
                0 <= x % d < d,
                k == x / d,
        ;
        assert(k * k * q <= m * m * (n * n)) by (nonlinear_arith)
            requires
                0 <= k * d <= x,
                x == m * n,
                q == d * d,
        ;
        assert forall|i: nat| k < i <= m implies #[trigger] (i * i * q) > m * m * (n * n) by {
            assert(i * d >= (k + 1) * d) by (nonlinear_arith)
                requires
                    i >= k + 1,
                    d > 0,
            ;
            assert(i * i * q > m * m * (n * n)) by (nonlinear_arith)
                requires
                    i * d > x,
                    x == m * n,
                    0 <= x,
                    q == d * d,
            ;
        }
        lemma_root_floor_is(m * m * (n * n), q, m as nat, k as nat);
        assert(m * m * t.num == m * m * (n * n));
        assert(a * (d - n) + b * n == a * d + x) by (nonlinear_arith)
            requires
                m == b - a,
                x == m * n,
        ;
        assert(a * d + x == (a + k) * d + x % d) by (nonlinear_arith)
            requires
                x == d * k + x % d,
        ;
        vstd::arithmetic::div_mod::lemma_fundamental_div_mod_converse(a * d + x, d, a + k, x % d);
    } else {
        let m = (a - b) as int;
        let x = m * n;
        let fl = x / d;
        vstd::arithmetic::div_mod::lemma_fundamental_div_mod(x, d);
        assert(0 <= x <= m * d) by (nonlinear_arith)
            requires
                0 <= m,
                0 <= n <= d,
                x == m * n,
        ;
        vstd::arithmetic::div_mod::lemma_div_pos_is_pos(x, d);
        assert(0 <= x % d < d);
        let j = if x % d == 0 {
            fl
        } else {
            fl + 1
        };
        assert(x == d * fl + x % d);
        assert(j * d >= x && (j - 1) * d < x || j == 0) by (nonlinear_arith)
            requires
                x == d * fl + x % d,
                0 <= x % d < d,
                j == (if x % d == 0 {
                    fl
                } else {
                    fl + 1
                }),
                0 <= fl,
        ;
        assert(j * d >= x) by (nonlinear_arith)
            requires
                x == d * fl + x % d,
                0 <= x % d < d,
                j == (if x % d == 0 {
                    fl
                } else {
                    fl + 1
                }),
        ;
        assert(j <= m) by (nonlinear_arith)
            requires
                x == d * fl + x % d,
                0 <= x % d < d,
                j == (if x % d == 0 {
                    fl
                } else {
                    fl + 1
                }),
                x <= m * d,
                0 < d,
        ;
        assert(j * j * q >= m * m * (n * n)) by (nonlinear_arith)
            requires
                j * d >= x,
                x == m * n,
                0 <= x,
                q == d * d,
        ;
        if j > 0 {
            assert((j - 1) * d < x) by (nonlinear_arith)
                requires
                    x == d * fl + x % d,
                    0 <= x % d < d,
                    j == (if x % d == 0 {
                        fl
                    } else {
                        fl + 1
                    }),
                    j > 0,
                    0 <= fl,
            ;
            assert((j - 1) * (j - 1) * q < m * m * (n * n)) by (nonlinear_arith)
                requires
                    0 <= (j - 1) * d < x,
                    x == m * n,
                    q == d * d,
            ;
        }
        lemma_root_ceil_is(m * m * (n * n), q, m as nat, j as nat);
        assert(m * m * t.num == m * m * (n * n));
        assert(a * (d - n) + b * n == (a - j) * d + (j * d - x)) by (nonlinear_arith)
            requires
                m == a - b,
                x == m * n,
        ;
        assert(0 <= j * d - x < d) by (nonlinear_arith)
            requires
                x == d * fl + x % d,
                0 <= x % d < d,
                j == (if x % d == 0 {
                    fl
                } else {
                    fl + 1
                }),
        ;
        vstd::arithmetic::div_mod::lemma_fundamental_div_mod_converse(
            a * (d - n) + b * n,
            d,
            a - j,
            j * d - x,
        );
    }
}

} // verus!
