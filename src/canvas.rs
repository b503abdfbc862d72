//! The RGBA pixel buffer that rendering writes into, and the two raster
//! operations taken from the `image` crate: Lanczos resampling and
//! alpha-compositing one buffer over another.

use vstd::prelude::*;

verus! {

/// A `width` by `height` RGBA image, row-major: pixel `(x, y)` is
/// `pixels[y * width + x]`.
#[derive(Debug, Clone, PartialEq, Eq)]
pub struct Canvas {
    pub width: u32,
    pub height: u32,
    pub pixels: Vec<[u8; 4]>,
}

/// Abstract content of a canvas.
pub ghost struct CanvasView {
    pub width: int,
    pub height: int,
    pub pixels: Seq<[u8; 4]>,
}

impl View for Canvas {
    type V = CanvasView;

    open spec fn view(&self) -> CanvasView {
        CanvasView { width: self.width as int, height: self.height as int, pixels: self.pixels@ }
    }
}

impl Canvas {
    pub open spec fn wf(&self) -> bool {
        self.pixels@.len() == self.width * self.height
    }
}

/// A sequence of `n` pixels, all `color`.
pub open spec fn solid(n: int, color: [u8; 4]) -> Seq<[u8; 4]> {
    Seq::new(n as nat, |i: int| color)
}

/// What `image`'s `Rgba::blend` makes of `bottom` with `top` composited
/// over it (source-over, in floating point).
pub uninterp spec fn rgba_blend(bottom: [u8; 4], top: [u8; 4]) -> [u8; 4];

/// One pixel of an overlay: a transparent `top` leaves `bottom`, an opaque
/// one replaces it, and anything between is blended.
pub open spec fn blend_spec(bottom: [u8; 4], top: [u8; 4]) -> [u8; 4] {
    if top[3] == 0 {
        bottom
    } else if top[3] == 255 {
        top
    } else {
        rgba_blend(bottom, top)
    }
}

/// `bottom` (rows of `bw` pixels) with the `tw` by `th` image `top`
/// composited over it with its top-left corner at `(x, y)`; the parts of
/// `top` outside `bottom` are dropped.
pub open spec fn overlaid(
    bottom: Seq<[u8; 4]>,
    bw: int,
    top: Seq<[u8; 4]>,
    tw: int,
    th: int,
    x: int,
    y: int,
) -> Seq<[u8; 4]> {
    Seq::new(
        bottom.len(),
        |i: int|
            {
                let tx = i % bw - x;
                let ty = i / bw - y;
                if 0 <= tx < tw && 0 <= ty < th {
                    blend_spec(bottom[i], top[ty * tw + tx])
                } else {
                    bottom[i]
                }
            },
    )
}

/// What `image`'s Lanczos3 resampling makes of a `width` by `height` image
/// when it is resized to `new_width` by `new_height`.
pub uninterp spec fn lanczos_resized(
    pixels: Seq<[u8; 4]>,
    width: nat,
    height: nat,
    new_width: nat,
    new_height: nat,
) -> Seq<[u8; 4]>;

/// Relies on `image::imageops::resize` with `FilterType::Lanczos3`: it returns
/// a `width` by `height` buffer that depends on the source pixels and sizes
/// alone.
#[verifier::external_body]
pub(crate) fn resize_lanczos(src: &Canvas, width: u32, height: u32) -> (r: Canvas)
    requires
        src.wf(),
        0 < width,
        0 < height,
        width * height * 4 <= usize::MAX,
    ensures
        r.width == width,
        r.height == height,
        r.pixels@.len() == width * height,
        r.pixels@ == lanczos_resized(src.pixels@, src.width as nat, src.height as nat, width as nat, height as nat),
{
    let buf = image::RgbaImage::from_raw(src.width, src.height, src.pixels.concat()).unwrap();
    let out = image::imageops::resize(&buf, width, height, image::imageops::FilterType::Lanczos3);
    Canvas { width, height, pixels: out.pixels().map(|p| p.0).collect() }
}

/// Relies on `image::imageops::overlay`: over the part of `bottom` that `top`
/// covers once placed at `(x, y)`, each pixel becomes `Rgba::blend` of itself
/// with the pixel of `top` above it, which keeps it when that pixel is fully
/// transparent and takes that pixel when it is opaque; the rest of `bottom`
/// is left alone.
#[verifier::external_body]
fn overlay_at(bottom: &mut Canvas, top: &Canvas, x: i64, y: i64)
    requires
        old(bottom).wf(),
        top.wf(),
    ensures
        final(bottom).width == old(bottom).width,
        final(bottom).height == old(bottom).height,
        final(bottom).pixels@.len() == old(bottom).pixels@.len(),
        forall|i: int|
            0 <= i < old(bottom).pixels@.len() ==> #[trigger] final(bottom).pixels@[i] == ({
                let b = old(bottom).pixels@[i];
                let tx = i % (old(bottom).width as int) - x;
                let ty = i / (old(bottom).width as int) - y;
                if 0 <= tx < top.width && 0 <= ty < top.height {
                    let t = top.pixels@[ty * top.width + tx];
                    if t[3] == 0 {
                        b
                    } else if t[3] == 255 {
                        t
                    } else {
                        rgba_blend(b, t)
                    }
                } else {
                    b
                }
            }),
{
    let mut base = image::RgbaImage::from_raw(bottom.width, bottom.height, bottom.pixels.concat()).unwrap();
    let layer = image::RgbaImage::from_raw(top.width, top.height, top.pixels.concat()).unwrap();
    image::imageops::overlay(&mut base, &layer, x, y);
    bottom.pixels = base.pixels().map(|p| p.0).collect();
}

/// Composites `top` over `bottom` with its top-left corner at `(x, y)`.
pub fn composite(bottom: &mut Canvas, top: &Canvas, x: i64, y: i64)
    requires
        old(bottom).wf(),
        top.wf(),
    ensures
        final(bottom).wf(),
        final(bottom).width == old(bottom).width,
        final(bottom).height == old(bottom).height,
        final(bottom).pixels@ == overlaid(
            old(bottom).pixels@,
            old(bottom).width as int,
            top.pixels@,
            top.width as int,
            top.height as int,
            x as int,
            y as int,
        ),
{
    let ghost before = bottom.pixels@;
    overlay_at(bottom, top, x, y);
    assert(bottom.pixels@ =~= overlaid(
        before,
        bottom.width as int,
        top.pixels@,
        top.width as int,
        top.height as int,
        x as int,
        y as int,
    ));
}

/// Pixel `(x, y)` of a canvas with rows of `w` pixels sits at `y * w + x`.
pub proof fn lemma_pixel_index(w: int, x: int, y: int)
    requires
        0 <= x < w,
        0 <= y,
    ensures
        (y * w + x) % w == x,
        (y * w + x) / w == y,
{
    vstd::arithmetic::div_mod::lemma_fundamental_div_mod_converse(y * w + x, w, y, x);
}

/// An index splits into its row and column.
pub proof fn lemma_index_split(w: int, i: int)
    requires
        0 < w,
        0 <= i,
    ensures
        i == (i / w) * w + i % w,
        0 <= i % w < w,
        0 <= i / w,
{
    vstd::arithmetic::div_mod::lemma_fundamental_div_mod(i, w);
    vstd::arithmetic::div_mod::lemma_div_pos_is_pos(i, w);
    assert(i / w * w == w * (i / w)) by (nonlinear_arith);
}

impl Canvas {
    /// A `width` by `height` canvas painted `color` all over.
    pub fn filled(width: u32, height: u32, color: [u8; 4]) -> (r: Canvas)
        requires
            width * height <= usize::MAX,
        ensures
            r.wf(),
            r.width == width,
            r.height == height,
            r.pixels@ == solid(width * height, color),
    {
        let n: usize = width as usize * height as usize;
        let mut pixels: Vec<[u8; 4]> = Vec::with_capacity(n);
        let mut i: usize = 0;
        while i < n
            invariant
                i <= n,
                pixels@ == solid(i as int, color),
            decreases n - i,
        {
            pixels.push(color);
            i = i + 1;
            assert(pixels@ =~= solid(i as int, color));
        }
        Canvas { width, height, pixels }
    }

    /// Pixel `(x, y)`.
    pub fn get_pixel(&self, x: u32, y: u32) -> (r: [u8; 4])
        requires
            self.wf(),
            x < self.width,
            y < self.height,
        ensures
            r == self.pixels@[y * self.width + x],
    {
        proof {
            assert(y * self.width + x < self.width * self.height) by (nonlinear_arith)
                requires
                    x < self.width,
                    y < self.height,
            ;
            assert(0 <= y * self.width) by (nonlinear_arith);
            assert(self.pixels@.len() == self.pixels.len());
        }
        self.pixels[y as usize * self.width as usize + x as usize]
    }

    /// Sets pixel `(x, y)` to `color`.
    pub fn put_pixel(&mut self, x: u32, y: u32, color: [u8; 4])
        requires
            old(self).wf(),
            x < old(self).width,
            y < old(self).height,
        ensures
            final(self).width == old(self).width,
            final(self).height == old(self).height,
            final(self).pixels@ == old(self).pixels@.update(y * old(self).width + x, color),
    {
        proof {
            assert(y * self.width + x < self.width * self.height) by (nonlinear_arith)
                requires
                    x < self.width,
                    y < self.height,
            ;
            assert(0 <= y * self.width) by (nonlinear_arith);
            assert(self.pixels@.len() == self.pixels.len());
        }
        let i: usize = y as usize * self.width as usize + x as usize;
        self.pixels.set(i, color);
    }
}

} // verus!
