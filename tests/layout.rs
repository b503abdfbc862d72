use qrtistry::error::RenderError;
use qrtistry::layout::compute_layout;
use qrtistry::types::color_presets;

#[test]
fn layout_of_the_default_size() {
    let l = compute_layout(512, 2, 25).unwrap();
    // 512 / 25 = 20; (512 - 80) / 25 = 17
    assert_eq!(l.module_size, 17);
    assert_eq!(l.qr_size, 425);
    assert_eq!(l.border_offset, 34);
    assert_eq!(l.canvas_size, 493);
    assert_eq!(l.canvas_size % l.module_size, 0);
}

#[test]
fn layout_without_border() {
    let l = compute_layout(128, 0, 21).unwrap();
    assert_eq!(l.module_size, 6);
    assert_eq!(l.canvas_size, 126);
}

#[test]
fn layout_with_no_pixel_per_module_is_refused() {
    assert_eq!(compute_layout(128, 0, 177), Err(RenderError::Sizing));
    assert_eq!(compute_layout(30, 10, 21), Err(RenderError::Sizing));
    // the border eats more than the whole size
    assert_eq!(compute_layout(100, 1000, 21), Err(RenderError::Sizing));
}

#[test]
fn layout_over_the_configurable_range() {
    for count in (21..=177).step_by(4) {
        for size in [128u32, 129, 300, 512, 1000, 2048] {
            for border in 0..=10u32 {
                match compute_layout(size, border, count) {
                    Ok(l) => {
                        assert!(l.module_size >= 1);
                        assert!(l.canvas_size <= size);
                        assert_eq!(l.canvas_size, l.module_size * (count as u32 + 2 * border));
                    }
                    Err(e) => {
                        assert_eq!(e, RenderError::Sizing);
                        let q = size / count as u32;
                        assert_eq!((size - 2 * border * q) / count as u32, 0);
                    }
                }
            }
        }
    }
}

#[test]
fn eight_presets() {
    let p = color_presets();
    assert_eq!(p.len(), 8);
    assert_eq!(p[0].name, "Classic");
    assert_eq!(p[0].fg, [0, 0, 0]);
    assert_eq!(p[0].bg, [255, 255, 255]);
    assert_eq!(p[7].name, "Cyber");
    assert_eq!(p[7].bg, [10, 10, 40]);
}
