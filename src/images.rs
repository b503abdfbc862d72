//! Layers around the modules: the base canvas (flat colour, or a faded
//! background image over it), the centred logo, and the overall opacity.

use vstd::prelude::*;
use crate::canvas::{composite, lanczos_resized, overlaid, resize_lanczos, solid, Canvas};
use crate::colors::opaque;
use crate::error::RenderError;
use crate::types::Fraction;

verus! {

/// `p` with its alpha replaced by `a`.
pub open spec fn with_alpha(p: [u8; 4], a: int) -> [u8; 4] {
    [p[0], p[1], p[2], a as u8]
}

/// Every pixel of `c` with its alpha scaled by `f`.
pub open spec fn faded(c: Seq<[u8; 4]>, f: Fraction) -> Seq<[u8; 4]> {
    Seq::new(c.len(), |i: int| with_alpha(c[i], f.scale(c[i][3] as int)))
}

/// Whether `p` differs from the background colour `bg` in red, green or
/// blue.
pub open spec fn differs_from(p: [u8; 4], bg: [u8; 3]) -> bool {
    p[0] != bg[0] || p[1] != bg[1] || p[2] != bg[2]
}

/// `c` with the alpha of each pixel that is not of colour `bg` scaled by
/// `opacity`.
pub open spec fn opacity_applied(c: Seq<[u8; 4]>, opacity: Fraction, bg: [u8; 3]) -> Seq<[u8; 4]> {
    Seq::new(
        c.len(),
        |i: int|
            if differs_from(c[i], bg) {
                with_alpha(c[i], opacity.scale(c[i][3] as int))
            } else {
                c[i]
            },
    )
}

/// The `size` by `size` base made of `bg_img` resampled to that size, its
/// alpha scaled by `opacity` when that is below one, over a flat `bg_color`.
pub open spec fn background_spec(bg_img: Canvas, size: int, opacity: Fraction, bg_color: [u8; 3]) -> Seq<
    [u8; 4],
> {
    let resized = lanczos_resized(
        bg_img.pixels@,
        bg_img.width as nat,
        bg_img.height as nat,
        size as nat,
        size as nat,
    );
    let layer = if opacity.below_one() {
        faded(resized, opacity)
    } else {
        resized
    };
    overlaid(solid(size * size, opaque(bg_color)), size, layer, size, size, 0, 0)
}

/// Side in pixels of the logo: `floor(qr_width * module_size * ratio)`.
pub open spec fn logo_size_spec(qr_width: int, module_size: int, ratio: Fraction) -> int {
    ratio.scale(qr_width * module_size)
}

/// Where the logo's top-left corner goes, on both axes: centred in the code,
/// past the border.
pub open spec fn logo_position_spec(offset: int, qr_size: int, logo_size: int) -> int {
    offset + (qr_size - logo_size) / 2
}

/// `c` (rows of `w` pixels) with the logo composited over the centre of the
/// code, or the error that stops it.
pub open spec fn logo_spec(
    c: Seq<[u8; 4]>,
    w: int,
    logo: Canvas,
    qr_width: int,
    module_size: int,
    offset: int,
    ratio: Fraction,
) -> Result<Seq<[u8; 4]>, RenderError> {
    let qr_size = qr_width * module_size;
    let n = logo_size_spec(qr_width, module_size, ratio);
    if n == 0 {
        Err(RenderError::LogoTooSmall)
    } else if n > qr_size {
        Err(RenderError::LogoTooLarge)
    } else {
        let at = logo_position_spec(offset, qr_size, n);
        let resized = lanczos_resized(
            logo.pixels@,
            logo.width as nat,
            logo.height as nat,
            n as nat,
            n as nat,
        );
        Ok(overlaid(c, w, resized, n, n, at, at))
    }
}

/// A `size` by `size` canvas filled with the opaque colour `bg_color`.
pub fn create_solid_background(size: u32, bg_color: [u8; 3]) -> (r: Canvas)
    requires
        size * size <= usize::MAX,
    ensures
        r.wf(),
        r.width == size,
        r.height == size,
        r.pixels@ == solid(size * size, opaque(bg_color)),
{
    let c = [bg_color[0], bg_color[1], bg_color[2], 255u8];
    assert(c@ =~= opaque(bg_color)@);
    Canvas::filled(size, size, c)
}

/// Scales the alpha of every pixel by `opacity`, truncating.
pub fn fade(image: &mut Canvas, opacity: Fraction)
    requires
        old(image).wf(),
        opacity.wf(),
    ensures
        final(image).wf(),
        final(image).width == old(image).width,
        final(image).height == old(image).height,
        final(image).pixels@ == faded(old(image).pixels@, opacity),
{
    let ghost c0 = image.pixels@;
    let n = image.pixels.len();
    let mut i: usize = 0;
    while i < n
        invariant
            image.wf(),
            image.width == old(image).width,
            image.height == old(image).height,
            opacity.wf(),
            n == c0.len(),
            image.pixels@.len() == n,
            i <= n,
            forall|j: int| 0 <= j < i ==> #[trigger] image.pixels@[j] == faded(c0, opacity)[j],
            forall|j: int| i <= j < n ==> #[trigger] image.pixels@[j] == c0[j],
        decreases n - i,
    {
        let p = image.pixels[i];
        let a = opacity.scale_u32(p[3] as u32);
        let q = [p[0], p[1], p[2], a as u8];
        assert(q@ =~= with_alpha(p, opacity.scale(p[3] as int))@);
        image.pixels.set(i, q);
        i = i + 1;
    }
    assert(image.pixels@ =~= faded(c0, opacity));
}

/// A `size` by `size` base: `bg_img` resampled (Lanczos3) to that size, its
/// alpha scaled by `opacity` when that is below one, composited over a flat
/// `bg_color`.
pub fn create_background_with_image(bg_img: &Canvas, size: u32, opacity: Fraction, bg_color: [u8; 3]) -> (r:
    Canvas)
    requires
        bg_img.wf(),
        opacity.wf(),
        0 < size,
        size * size * 4 <= usize::MAX,
    ensures
        r.wf(),
        r.width == size,
        r.height == size,
        lanczos_resized(
            bg_img.pixels@,
            bg_img.width as nat,
            bg_img.height as nat,
            size as nat,
            size as nat,
        ).len() == size * size,
        r.pixels@ == background_spec(*bg_img, size as int, opacity, bg_color),
{
    let mut layer = resize_lanczos(bg_img, size, size);
    if opacity.num < opacity.den {
        fade(&mut layer, opacity);
    }
    let mut base = create_solid_background(size, bg_color);
    composite(&mut base, &layer, 0, 0);
    base
}

/// Side in pixels of the logo for a code of `qr_width` modules of
/// `module_size` pixels: `floor(qr_width * module_size * ratio)`.
pub fn logo_size_px(qr_width: usize, module_size: u32, ratio: Fraction) -> (r: u32)
    requires
        qr_width * module_size <= u32::MAX,
        ratio.wf(),
    ensures
        r == logo_size_spec(qr_width as int, module_size as int, ratio),
        r <= qr_width * module_size,
{
    let qr_size = (qr_width as u64 * module_size as u64) as u32;
    ratio.scale_u32(qr_size)
}

/// Coordinate of the logo's top-left corner on both axes: the border
/// `offset` plus half the room that the logo leaves in the code.
pub fn logo_position(offset: u32, qr_size: u32, logo_size: u32) -> (r: u32)
    requires
        logo_size <= qr_size,
        offset + qr_size <= u32::MAX,
    ensures
        r == logo_position_spec(offset as int, qr_size as int, logo_size as int),
{
    offset + (qr_size - logo_size) / 2
}

/// Composites `logo`, resampled (Lanczos3) to its size, over the centre of
/// the code; fails when that size comes out zero or larger than the code.
pub fn apply_logo_overlay(
    image: &mut Canvas,
    logo: &Canvas,
    qr_width: usize,
    module_size: u32,
    offset: u32,
    logo_size_ratio: Fraction,
) -> (r: Result<(), RenderError>)
    requires
        old(image).wf(),
        logo.wf(),
        logo_size_ratio.wf(),
        qr_width * module_size <= u32::MAX,
        offset + qr_width * module_size <= u32::MAX,
        qr_width * module_size * qr_width * module_size * 4 <= usize::MAX,
    ensures
        final(image).wf(),
        final(image).width == old(image).width,
        final(image).height == old(image).height,
        match logo_spec(
            old(image).pixels@,
            old(image).width as int,
            *logo,
            qr_width as int,
            module_size as int,
            offset as int,
            logo_size_ratio,
        ) {
            Ok(pixels) => r is Ok && final(image).pixels@ == pixels,
            Err(e) => r == Err::<(), RenderError>(e) && final(image).pixels@ == old(image).pixels@,
        },
{
    let qr_size = (qr_width as u64 * module_size as u64) as u32;
    let logo_size = logo_size_px(qr_width, module_size, logo_size_ratio);
    if logo_size == 0 {
        return Err(RenderError::LogoTooSmall);
    }
    if logo_size > qr_size {
        return Err(RenderError::LogoTooLarge);
    }
    proof {
        assert(logo_size * logo_size <= qr_size * qr_size) by (nonlinear_arith)
            requires
                logo_size <= qr_size,
        ;
        assert(qr_size * qr_size == qr_width * module_size * qr_width * module_size) by (nonlinear_arith)
            requires
                qr_size == qr_width * module_size,
        ;
    }
    let resized = resize_lanczos(logo, logo_size, logo_size);
    let at = logo_position(offset, qr_size, logo_size);
    composite(image, &resized, at as i64, at as i64);
    Ok(())
}

/// Scales by `opacity` the alpha of every pixel whose colour is not exactly
/// `bg_color`; background-coloured pixels keep theirs.
pub fn apply_qr_opacity(image: &mut Canvas, opacity: Fraction, bg_color: [u8; 3])
    requires
        old(image).wf(),
        opacity.wf(),
    ensures
        final(image).wf(),
        final(image).width == old(image).width,
        final(image).height == old(image).height,
        final(image).pixels@ == opacity_applied(old(image).pixels@, opacity, bg_color),
{
    let ghost c0 = image.pixels@;
    let n = image.pixels.len();
    let mut i: usize = 0;
    while i < n
        invariant
            image.wf(),
            image.width == old(image).width,
            image.height == old(image).height,
            opacity.wf(),
            n == c0.len(),
            image.pixels@.len() == n,
            i <= n,
            forall|j: int|
                0 <= j < i ==> #[trigger] image.pixels@[j] == opacity_applied(c0, opacity, bg_color)[j],
            forall|j: int| i <= j < n ==> #[trigger] image.pixels@[j] == c0[j],
        decreases n - i,
    {
        let p = image.pixels[i];
        if p[0] != bg_color[0] || p[1] != bg_color[1] || p[2] != bg_color[2] {
            let a = opacity.scale_u32(p[3] as u32);
            let q = [p[0], p[1], p[2], a as u8];
            assert(q@ =~= with_alpha(p, opacity.scale(p[3] as int))@);
            image.pixels.set(i, q);
        }
        i = i + 1;
    }
    assert(image.pixels@ =~= opacity_applied(c0, opacity, bg_color));
}

/// Overall opacity changes only the alpha of pixels whose colour differs
/// from the background colour, to `floor(alpha * opacity)`; pixels of
/// exactly the background colour are left as they were.
pub proof fn lemma_opacity_selective(c: Seq<[u8; 4]>, opacity: Fraction, bg: [u8; 3], i: int)
    requires
        opacity.wf(),
        0 <= i < c.len(),
    ensures
        differs_from(c[i], bg) ==> opacity_applied(c, opacity, bg)[i]@ == seq![
            c[i][0],
            c[i][1],
            c[i][2],
            opacity.scale(c[i][3] as int) as u8,
        ],
        differs_from(c[i], bg) ==> opacity.scale(c[i][3] as int) <= c[i][3],
        !differs_from(c[i], bg) ==> opacity_applied(c, opacity, bg)[i] == c[i],
{
    let a = c[i][3] as int;
    assert(a * opacity.num <= a * opacity.den) by (nonlinear_arith)
        requires
            0 <= a,
            opacity.num <= opacity.den,
    ;
    assert(a * opacity.num / opacity.den as int <= a) by (nonlinear_arith)
        requires
            a * opacity.num <= a * opacity.den,
            0 < opacity.den,
    ;
    assert(0 <= a * opacity.num) by (nonlinear_arith)
        requires
            0 <= a,
    ;
    assert(with_alpha(c[i], opacity.scale(a))@ =~= seq![
        c[i][0],
        c[i][1],
        c[i][2],
        opacity.scale(a) as u8,
    ]);
}

} // verus!
