//! Geometry of the canvas: module size in pixels, border offset and the
//! total side, all derived from the requested size, the border width in
//! modules and the module count.

use vstd::prelude::*;
use crate::error::RenderError;

verus! {

/// Pixel geometry of a render.
#[derive(Debug, Clone, Copy, PartialEq, Eq, Structural)]
pub struct Layout {
    /// Side of one module, in pixels.
    pub module_size: u32,
    /// Side of the code without its border, in pixels.
    pub qr_size: u32,
    /// Width of the border, in pixels.
    pub border_offset: u32,
    /// Side of the whole canvas, in pixels.
    pub canvas_size: u32,
}

/// `floor((size - 2 * border * floor(size / count)) / count)`: the module
/// side in pixels, which may come out zero or negative.
pub open spec fn module_size_spec(size: int, border: int, count: int) -> int {
    (size - 2 * border * (size / count)) / count
}

/// The layout for `size` pixels, `border` modules of quiet zone and
/// `count` modules a side, or `None` when a module would get no pixel.
pub open spec fn layout_spec(size: int, border: int, count: int) -> Option<Layout> {
    let m = module_size_spec(size, border, count);
    if m < 1 {
        None
    } else {
        Some(
            Layout {
                module_size: m as u32,
                qr_size: (m * count) as u32,
                border_offset: (border * m) as u32,
                canvas_size: (m * count + 2 * border * m) as u32,
            },
        )
    }
}

/// Facts on a successful layout: everything fits in the requested size.
pub proof fn lemma_layout_fits(size: int, border: int, count: int)
    requires
        0 <= size,
        0 <= border,
        0 < count,
        module_size_spec(size, border, count) >= 1,
    ensures
        ({
            let m = module_size_spec(size, border, count);
            &&& m <= size / count
            &&& m * count + 2 * border * m <= size
            &&& border * m <= m * count + 2 * border * m
            &&& m * count <= m * count + 2 * border * m
        }),
{
    let m = module_size_spec(size, border, count);
    let q = size / count;
    let n = size - 2 * border * q;
    assert(0 <= q) by {
        vstd::arithmetic::div_mod::lemma_div_pos_is_pos(size, count);
    }
    assert(0 <= border * q) by (nonlinear_arith)
        requires
            0 <= border,
            0 <= q,
    ;
    vstd::arithmetic::div_mod::lemma_div_is_ordered(n, size, count);
    vstd::arithmetic::div_mod::lemma_fundamental_div_mod(n, count);
    assert(m * count <= n) by (nonlinear_arith)
        requires
            n == count * (n / count) + n % count,
            0 <= n % count,
            m == n / count,
    ;
    assert(border * m <= border * q) by (nonlinear_arith)
        requires
            0 <= border,
            m <= q,
    ;
    assert(0 <= border * m) by (nonlinear_arith)
        requires
            0 <= border,
            1 <= m,
    ;
    assert(0 <= m * count) by (nonlinear_arith)
        requires
            0 < count,
            1 <= m,
    ;
    assert(2 * border * m == 2 * (border * m)) by (nonlinear_arith);
    assert(2 * border * q == 2 * (border * q)) by (nonlinear_arith);
}

/// The layout for `size` pixels, `border` modules of quiet zone and
/// `qr_width` modules a side; a sizing error when a module would get less
/// than one pixel.
pub fn compute_layout(size: u32, border: u32, qr_width: usize) -> (r: Result<Layout, RenderError>)
    requires
        0 < qr_width,
    ensures
        match layout_spec(size as int, border as int, qr_width as int) {
            Some(l) => r == Ok::<Layout, RenderError>(l),
            None => r == Err::<Layout, RenderError>(RenderError::Sizing),
        },
        r matches Ok(l) ==> 0 < l.module_size && l.canvas_size <= size,
{
    if qr_width as u64 > size as u64 {
        proof {
            assert(size as int / qr_width as int == 0) by {
                vstd::arithmetic::div_mod::lemma_basic_div(size as int, qr_width as int);
            }
            assert(module_size_spec(size as int, border as int, qr_width as int) == 0) by {
                vstd::arithmetic::div_mod::lemma_basic_div(size as int, qr_width as int);
            }
        }
        return Err(RenderError::Sizing);
    }
    let count: u64 = qr_width as u64;
    let q: u64 = size as u64 / count;
    proof {
        vstd::arithmetic::div_mod::lemma_div_is_ordered_by_denominator(size as int, 1, count as int);
        assert(2 * border * q <= 2 * 0xffff_ffff * 0xffff_ffff) by (nonlinear_arith)
            requires
                border <= 0xffff_ffff,
                q <= 0xffff_ffff,
        ;
        assert(0 <= 2 * border * q) by (nonlinear_arith)
            requires
                0 <= q,
        ;
    }
    let n: i128 = size as i128 - 2 * border as i128 * q as i128;
    if n < count as i128 {
        proof {
            vstd::arithmetic::div_mod::lemma_div_is_ordered(n as int, count - 1, count as int);
            vstd::arithmetic::div_mod::lemma_basic_div(count - 1, count as int);
        }
        return Err(RenderError::Sizing);
    }
    let m: u64 = (n / count as i128) as u64;
    proof {
        vstd::arithmetic::div_mod::lemma_div_by_self(count as int);
        vstd::arithmetic::div_mod::lemma_div_is_ordered(count as int, n as int, count as int);
        lemma_layout_fits(size as int, border as int, count as int);
    }
    let module_size = m as u32;
    let qr_size = (m * count) as u32;
    let border_offset = (border as u64 * m) as u32;
    let canvas_size = (m * count + 2 * border as u64 * m) as u32;
    Ok(Layout { module_size, qr_size, border_offset, canvas_size })
}

/// Over the configurable range (a requested size of 128 to 2048 pixels, a
/// border of at most 10 modules) and every module count the encoder
/// produces (odd, 21 to 177), the module size never goes negative: the
/// layout either succeeds with modules of at least one pixel, or the size
/// comes out exactly zero and the layout is refused.
pub proof fn lemma_module_size_in_range(size: int, border: int, count: int)
    requires
        128 <= size <= 2048,
        0 <= border <= 10,
        21 <= count <= 177,
        count % 2 == 1,
    ensures
        module_size_spec(size, border, count) >= 0,
        layout_spec(size, border, count) is None <==> module_size_spec(size, border, count) == 0,
        layout_spec(size, border, count) matches Some(l) ==> 1 <= l.module_size && l.canvas_size
            <= size,
{
    let q = size / count;
    vstd::arithmetic::div_mod::lemma_fundamental_div_mod(size, count);
    vstd::arithmetic::div_mod::lemma_div_pos_is_pos(size, count);
    assert(2 * border * q <= size) by (nonlinear_arith)
        requires
            0 <= border <= 10,
            21 <= count,
            0 <= q,
            size == count * q + size % count,
            0 <= size % count,
    ;
    vstd::arithmetic::div_mod::lemma_div_pos_is_pos(size - 2 * border * q, count);
    if module_size_spec(size, border, count) >= 1 {
        lemma_layout_fits(size, border, count);
        let m = module_size_spec(size, border, count);
        assert(0 <= border * m && 0 <= m * count) by (nonlinear_arith)
            requires
                0 <= border,
                1 <= m,
                0 < count,
        ;
    }
}

} // verus!
