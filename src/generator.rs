//! The render pipeline: base canvas, every dark module in row-major order,
//! logo, then overall opacity.

use vstd::prelude::*;
use crate::canvas::{solid, Canvas, lemma_pixel_index};
use crate::colors::opaque;
use crate::drawing::{
    data_radius,
    draw_data_module,
    draw_eye_module,
    eye_at,
    eye_color_spec,
    eye_painted,
    module_color,
    painted,
    QrStyle,
};
use crate::error::{encode_error_spec, EncodeError, RenderError};
use crate::images::{
    apply_logo_overlay,
    apply_qr_opacity,
    background_spec,
    create_background_with_image,
    create_solid_background,
    logo_spec,
    opacity_applied,
};
use crate::layout::{compute_layout, layout_spec, Layout};
use crate::types::{ec_level_of, ErrorCorrectionLevel, Fraction};

verus! {

/// A QR symbol: `width` modules a side, `dark[y * width + x]` telling whether
/// module `(x, y)` is dark.
#[derive(Debug, Clone, PartialEq, Eq)]
pub struct QrMatrix {
    pub width: usize,
    pub dark: Vec<bool>,
}

impl QrMatrix {
    pub open spec fn wf(&self) -> bool {
        21 <= self.width && self.dark@.len() == self.width * self.width
    }
}

/// A logo, composited over the centre of the code at `size` of its width.
#[derive(Debug, Clone, PartialEq, Eq)]
pub struct Logo {
    pub image: Canvas,
    pub size: Fraction,
}

/// A background image, faded to `opacity` and laid over the background
/// colour.
#[derive(Debug, Clone, PartialEq, Eq)]
pub struct BackgroundImage {
    pub image: Canvas,
    pub opacity: Fraction,
}

/// Everything a render depends on.
#[derive(Debug, Clone, PartialEq, Eq)]
pub struct RenderConfig {
    /// The payload to encode.
    pub text: String,
    /// Requested side of the canvas, in pixels.
    pub size: u32,
    /// Quiet zone, in modules.
    pub border: u32,
    pub ec_level: ErrorCorrectionLevel,
    /// Colour of light modules and of the border.
    pub background_color: [u8; 3],
    pub style: QrStyle,
    pub logo: Option<Logo>,
    pub background_image: Option<BackgroundImage>,
    /// Opacity of everything not of the background colour.
    pub opacity: Fraction,
}

impl RenderConfig {
    /// Fractions within `[0, 1]`, images well formed, and a canvas of the
    /// requested size (four bytes a pixel) that fits in memory.
    pub open spec fn wf(&self) -> bool {
        &&& self.style.wf()
        &&& self.opacity.wf()
        &&& self.size * self.size * 4 <= usize::MAX
        &&& (self.logo matches Some(l) ==> l.image.wf() && l.size.wf())
        &&& (self.background_image matches Some(b) ==> b.image.wf() && b.opacity.wf())
    }
}

/// Top-left corners of the three finder patterns of a `w`-module symbol:
/// top-left, top-right, bottom-left.
pub open spec fn eye_corners(w: int) -> Seq<(usize, usize)> {
    seq![(0usize, 0usize), ((w - 7) as usize, 0usize), (0usize, (w - 7) as usize)]
}

/// The `n` by `n` canvas before any module is drawn.
pub open spec fn base_spec(cfg: RenderConfig, n: int) -> Seq<[u8; 4]> {
    match cfg.background_image {
        Some(b) => background_spec(b.image, n, b.opacity, cfg.background_color),
        None => solid(n * n, opaque(cfg.background_color)),
    }
}

/// `c` after cell `k` of a `w`-module symbol is drawn: light cells leave it,
/// finder cells take their eye style, the others the module style.
pub open spec fn cell_spec(
    w: int,
    dark: Seq<bool>,
    style: QrStyle,
    l: Layout,
    c: Seq<[u8; 4]>,
    k: int,
) -> Seq<[u8; 4]> {
    if !dark[k] {
        c
    } else {
        let x = k % w;
        let y = k / w;
        let n = l.canvas_size as int;
        let m = l.module_size as int;
        let px = l.border_offset + x * m;
        let py = l.border_offset + y * m;
        match eye_at(eye_corners(w), x, y) {
            Some(rel) => eye_painted(
                c,
                n,
                px,
                py,
                m,
                eye_color_spec(style, px, py, n, n),
                style.eye_style,
                style.rounding,
                rel.0,
                rel.1,
            ),
            None => painted(
                c,
                n,
                px,
                py,
                m,
                module_color(style, px, py, n, n),
                style.module_style,
                data_radius(style, m),
            ),
        }
    }
}

/// `base` after the first `k` cells, in row-major order, are drawn.
pub open spec fn modules_spec(
    w: int,
    dark: Seq<bool>,
    style: QrStyle,
    l: Layout,
    base: Seq<[u8; 4]>,
    k: nat,
) -> Seq<[u8; 4]>
    decreases k,
{
    if k == 0 {
        base
    } else {
        cell_spec(w, dark, style, l, modules_spec(w, dark, style, l, base, (k - 1) as nat), k - 1)
    }
}

/// The pixels of the render of the `w`-module symbol `dark` under `cfg`, or
/// the error it ends in.
pub open spec fn render_spec(w: int, dark: Seq<bool>, cfg: RenderConfig) -> Result<Seq<[u8; 4]>, RenderError> {
    match layout_spec(cfg.size as int, cfg.border as int, w) {
        None => Err(RenderError::Sizing),
        Some(l) => {
            let n = l.canvas_size as int;
            let drawn = modules_spec(w, dark, cfg.style, l, base_spec(cfg, n), (w * w) as nat);
            let with_logo = match cfg.logo {
                None => Ok(drawn),
                Some(logo) => logo_spec(
                    drawn,
                    n,
                    logo.image,
                    w,
                    l.module_size as int,
                    l.border_offset as int,
                    logo.size,
                ),
            };
            match with_logo {
                Err(e) => Err(e),
                Ok(p) => Ok(
                    if cfg.opacity.below_one() {
                        opacity_applied(p, cfg.opacity, cfg.background_color)
                    } else {
                        p
                    },
                ),
            }
        },
    }
}

/// Whether `r` is what rendering the `w`-module symbol `dark` under `cfg`
/// gives: the canvas of the layout's side with the pixels of
/// `render_spec`, or its error.
pub open spec fn renders_as(
    w: int,
    dark: Seq<bool>,
    cfg: RenderConfig,
    r: Result<Canvas, RenderError>,
) -> bool {
    match render_spec(w, dark, cfg) {
        Ok(pixels) => match r {
            Ok(c) => {
                &&& c.wf()
                &&& layout_spec(cfg.size as int, cfg.border as int, w) matches Some(l)
                &&& c.width == l.canvas_size
                &&& c.height == l.canvas_size
                &&& c.pixels@ == pixels
            },
            Err(_) => false,
        },
        Err(e) => r == Err::<Canvas, RenderError>(e),
    }
}

/// Top-left corners of the three finder patterns of a `qr_width`-module
/// symbol.
pub fn eye_positions(qr_width: usize) -> (r: Vec<(usize, usize)>)
    requires
        7 <= qr_width,
    ensures
        r@ == eye_corners(qr_width as int),
{
    let r = vec![(0, 0), (qr_width - 7, 0), (0, qr_width - 7)];
    assert(r@ =~= eye_corners(qr_width as int));
    r
}

/// Whether module `(x, y)` lies in one of the 7x7 blocks whose top-left
/// corners are `eyes`.
fn in_eye(eyes: &[(usize, usize)], x: usize, y: usize) -> (r: bool)
    ensures
        r == eye_at(eyes@, x as int, y as int) is Some,
{
    let mut i: usize = 0;
    assert(eyes@.subrange(0, eyes@.len() as int) =~= eyes@);
    while i < eyes.len()
        invariant
            i <= eyes@.len(),
            eye_at(eyes@, x as int, y as int) == eye_at(
                eyes@.subrange(i as int, eyes@.len() as int),
                x as int,
                y as int,
            ),
        decreases eyes.len() - i,
    {
        let (ex, ey) = eyes[i];
        let ghost rest = eyes@.subrange(i as int, eyes@.len() as int);
        assert(rest[0] == eyes@[i as int]);
        assert(rest.drop_first() =~= eyes@.subrange(i + 1, eyes@.len() as int));
        if x >= ex && x - ex < 7 && y >= ey && y - ey < 7 {
            return true;
        }
        i = i + 1;
    }
    false
}

proof fn lemma_module_origin(offset: int, x: int, m: int, w: int, n: int)
    requires
        0 <= x < w,
        0 < m,
        0 <= offset,
        offset + w * m <= n,
    ensures
        0 <= x * m,
        offset + x * m < n,
{
    assert(0 <= x * m && x * m + m <= w * m) by (nonlinear_arith)
        requires
            0 <= x < w,
            0 < m,
    ;
}

/// Renders the symbol `matrix` under `config`: the base canvas, each dark
/// module in row-major order (finder modules in the eye style, the others in
/// the module style), the logo, then the overall opacity.
pub fn render_matrix(matrix: &QrMatrix, config: &RenderConfig) -> (r: Result<Canvas, RenderError>)
    requires
        matrix.wf(),
        config.wf(),
    ensures
        renders_as(matrix.width as int, matrix.dark@, *config, r),
{
    let qr_width = matrix.width;
    let ghost w = qr_width as int;
    let layout = match compute_layout(config.size, config.border, qr_width) {
        Ok(l) => l,
        Err(e) => return Err(e),
    };
    let n = layout.canvas_size;
    let m = layout.module_size;
    let offset = layout.border_offset;
    proof {
        crate::layout::lemma_layout_fits(config.size as int, config.border as int, w);
        assert(n * n <= config.size * config.size) by (nonlinear_arith)
            requires
                n <= config.size,
        ;
        assert(layout.qr_size * layout.qr_size <= n * n) by (nonlinear_arith)
            requires
                layout.qr_size <= n,
        ;
        assert(0 < m * w) by (nonlinear_arith)
            requires
                0 < m,
                0 < w,
        ;
        assert(offset + w * m <= n) by (nonlinear_arith)
            requires
                offset == config.border * m,
                n == m * w + 2 * config.border * m,
                0 <= config.border * m,
        ;
        assert(w * m * w * m == layout.qr_size * layout.qr_size) by (nonlinear_arith)
            requires
                layout.qr_size == m * w,
        ;
        assert(w <= w * m) by (nonlinear_arith)
            requires
                1 <= m,
                0 < w,
        ;
    }
    let mut image = match &config.background_image {
        Some(b) => create_background_with_image(&b.image, n, b.opacity, config.background_color),
        None => create_solid_background(n, config.background_color),
    };
    let ghost base = image.pixels@;
    assert(base == base_spec(*config, n as int));
    let eyes = eye_positions(qr_width);
    let mut y: usize = 0;
    while y < qr_width
        invariant
            matrix.wf(),
            config.wf(),
            qr_width == matrix.width,
            w == qr_width,
            image.wf(),
            image.width == n,
            image.height == n,
            0 < n,
            eyes@ == eye_corners(w),
            layout_spec(config.size as int, config.border as int, w) == Some(layout),
            n == layout.canvas_size,
            m == layout.module_size,
            offset == layout.border_offset,
            0 < m,
            offset + w * m <= n,
            w <= n,
            y <= qr_width,
            image.pixels@ == modules_spec(w, matrix.dark@, config.style, layout, base, (y * w) as nat),
        decreases qr_width - y,
    {
        let mut x: usize = 0;
        while x < qr_width
            invariant
                matrix.wf(),
                config.wf(),
                qr_width == matrix.width,
                w == qr_width,
                image.wf(),
                image.width == n,
                image.height == n,
                0 < n,
                eyes@ == eye_corners(w),
                layout_spec(config.size as int, config.border as int, w) == Some(layout),
                n == layout.canvas_size,
                m == layout.module_size,
                offset == layout.border_offset,
                0 < m,
                offset + w * m <= n,
            w <= n,
                y < qr_width,
                x <= qr_width,
                image.pixels@ == modules_spec(w, matrix.dark@, config.style, layout, base, (y * w + x) as nat),
            decreases qr_width - x,
        {
            proof {
                assert(y * w + x < w * w) by (nonlinear_arith)
                    requires
                        x < w,
                        y < w,
                ;
                assert(0 <= y * w) by (nonlinear_arith)
                    requires
                        0 <= y,
                        0 <= w,
                ;
                lemma_pixel_index(w, x as int, y as int);
                lemma_module_origin(offset as int, x as int, m as int, w, n as int);
                lemma_module_origin(offset as int, y as int, m as int, w, n as int);
                assert(matrix.dark@.len() == matrix.dark.len());
            }
            let k = y * qr_width + x;
            if matrix.dark[k] {
                let px = offset + x as u32 * m;
                let py = offset + y as u32 * m;
                if in_eye(eyes.as_slice(), x, y) {
                    draw_eye_module(&mut image, &config.style, x, y, px, py, m, eyes.as_slice());
                } else {
                    draw_data_module(&mut image, &config.style, x, y, px, py, m);
                }
            }
            x = x + 1;
        }
        proof {
            assert((y + 1) * w == y * w + w) by (nonlinear_arith);
        }
        y = y + 1;
    }
    let ghost drawn = image.pixels@;
    assert(drawn == modules_spec(w, matrix.dark@, config.style, layout, base, (w * w) as nat));
    match &config.logo {
        Some(logo) => {
            match apply_logo_overlay(&mut image, &logo.image, qr_width, m, offset, logo.size) {
                Ok(()) => {},
                Err(e) => return Err(e),
            }
        },
        None => {},
    }
    if config.opacity.num < config.opacity.den {
        apply_qr_opacity(&mut image, config.opacity, config.background_color);
    }
    Ok(image)
}

/// What the qrcode crate's encoder makes of `text` at `level`: the number
/// of modules a side and, row-major, whether each module is dark; or the
/// error it rejects the text with.
pub uninterp spec fn qr_symbol(text: Seq<char>, level: qrcode::EcLevel) -> Result<
    (nat, Seq<bool>),
    qrcode::types::QrError,
>;

/// A side the encoder produces: version `v` in `1..=40` gives `17 + 4 * v`
/// modules.
pub open spec fn symbol_width(w: int) -> bool {
    21 <= w <= 177 && (w - 17) % 4 == 0
}

/// Relies on `qrcode::QrCode::with_error_correction_level`, which picks the
/// smallest normal version (1 to 40) that holds the data, and on `width` and
/// `to_colors` of the code it builds: `17 + 4 * version` modules a side and
/// one colour per module, row-major; the outcome depends on the text's bytes
/// and the level alone.
#[verifier::external_body]
fn encode_symbol(text: &str, level: qrcode::EcLevel) -> (r: Result<QrMatrix, qrcode::types::QrError>)
    ensures
        match r {
            Ok(m) => {
                &&& qr_symbol(text@, level) == Ok::<(nat, Seq<bool>), qrcode::types::QrError>(
                    (m.width as nat, m.dark@),
                )
                &&& symbol_width(m.width as int)
                &&& m.dark@.len() == m.width * m.width
            },
            Err(e) => qr_symbol(text@, level) == Err::<(nat, Seq<bool>), qrcode::types::QrError>(e),
        },
{
    match qrcode::QrCode::with_error_correction_level(text, level) {
        Ok(code) => Ok(QrMatrix {
            width: code.width(),
            dark: code.to_colors().into_iter().map(|c| c == qrcode::Color::Dark).collect(),
        }),
        Err(e) => Err(e),
    }
}

/// Whether `r` is what encoding `text` at `level` gives.
pub open spec fn encodes_as(text: Seq<char>, level: ErrorCorrectionLevel, r: Result<QrMatrix, EncodeError>) -> bool {
    match qr_symbol(text, ec_level_of(level)) {
        Ok(sym) => r matches Ok(m) && m.width == sym.0 && m.dark@ == sym.1,
        Err(e) => r == Err::<QrMatrix, EncodeError>(encode_error_spec(e)),
    }
}

/// Encodes `text` at error-correction `level` into a symbol.
pub fn encode_text(text: &str, level: ErrorCorrectionLevel) -> (r: Result<QrMatrix, EncodeError>)
    ensures
        encodes_as(text@, level, r),
        r matches Ok(m) ==> m.wf() && m.width % 2 == 1 && m.width <= 177,
        qr_symbol(text@, ec_level_of(level)) matches Ok(sym) ==> symbol_width(sym.0 as int)
            && sym.1.len() == sym.0 * sym.0,
{
    match encode_symbol(text, level.to_ec_level()) {
        Ok(m) => Ok(m),
        Err(e) => Err(EncodeError::from_qr_error(e)),
    }
}

/// Whether `r` is what rendering `cfg` gives: the encoding error, or the
/// render of the encoded symbol.
pub open spec fn generates_as(cfg: RenderConfig, r: Result<Canvas, RenderError>) -> bool {
    match qr_symbol(cfg.text@, ec_level_of(cfg.ec_level)) {
        Ok(sym) => renders_as(sym.0 as int, sym.1, cfg, r),
        Err(e) => r == Err::<Canvas, RenderError>(RenderError::Encoding(encode_error_spec(e))),
    }
}

/// Encodes the configured text and renders it with the configured style.
pub fn generate_qr_image(config: &RenderConfig) -> (r: Result<Canvas, RenderError>)
    requires
        config.wf(),
    ensures
        qr_symbol(config.text@, ec_level_of(config.ec_level)) matches Ok(sym) ==> symbol_width(
            sym.0 as int,
        ) && sym.1.len() == sym.0 * sym.0,
        generates_as(*config, r),
{
    let matrix = match encode_text(config.text.as_str(), config.ec_level) {
        Ok(m) => m,
        Err(e) => return Err(RenderError::Encoding(e)),
    };
    render_matrix(&matrix, config)
}

/// Rendering is a function of its inputs: two renders of the same symbol
/// under the same configuration both fail with the same error, or both
/// give canvases of the same side with identical pixels.
pub proof fn lemma_render_deterministic(
    w: int,
    dark: Seq<bool>,
    cfg: RenderConfig,
    r1: Result<Canvas, RenderError>,
    r2: Result<Canvas, RenderError>,
)
    requires
        renders_as(w, dark, cfg, r1),
        renders_as(w, dark, cfg, r2),
    ensures
        r1 is Err ==> r1 == r2,
        r1 matches Ok(c1) ==> r2 matches Ok(c2) && c1@ == c2@,
{
}

/// Generating twice from one configuration gives the same outcome: the same
/// error, or canvases of the same side with identical pixels.
pub proof fn lemma_generate_deterministic(
    cfg: RenderConfig,
    r1: Result<Canvas, RenderError>,
    r2: Result<Canvas, RenderError>,
)
    requires
        generates_as(cfg, r1),
        generates_as(cfg, r2),
    ensures
        r1 is Err ==> r1 == r2,
        r1 matches Ok(c1) ==> r2 matches Ok(c2) && c1@ == c2@,
{
}

} // verus!
