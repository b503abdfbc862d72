use qrtistry::canvas::Canvas;
use qrtistry::error::RenderError;
use qrtistry::images::{
    apply_logo_overlay, apply_qr_opacity, create_background_with_image, create_solid_background,
    fade, logo_position, logo_size_px,
};
use qrtistry::types::Fraction;

fn solid(width: u32, height: u32, p: [u8; 4]) -> Canvas {
    Canvas { width, height, pixels: vec![p; (width * height) as usize] }
}

#[test]
fn test_logo_size_calculation() {
    let qr_width = 25;
    let module_size = 10;
    let logo_ratio = Fraction { num: 2, den: 10 };

    let logo_size = logo_size_px(qr_width, module_size, logo_ratio);

    assert_eq!(logo_size, 50); // 250 * 0.2 = 50
}

#[test]
fn test_logo_center_calculation() {
    let offset = 20;
    let qr_size = 250;
    let logo_size = 50;

    let center_x = logo_position(offset, qr_size, logo_size);
    let center_y = logo_position(offset, qr_size, logo_size);

    assert_eq!(center_x, 120); // 20 + (250-50)/2 = 20 + 100 = 120
    assert_eq!(center_y, 120);
}

#[test]
fn logo_size_truncates() {
    // 21 * 7 = 147 pixels, a third of which is 49
    assert_eq!(logo_size_px(21, 7, Fraction { num: 1, den: 3 }), 49);
    // 147 * 0.05 = 7.35
    assert_eq!(logo_size_px(21, 7, Fraction { num: 5, den: 100 }), 7);
}

#[test]
fn logo_position_odd_room_rounds_down() {
    assert_eq!(logo_position(0, 101, 50), 25);
}

#[test]
fn logo_too_small_is_rejected() {
    let mut image = solid(30, 30, [255, 255, 255, 255]);
    let logo = solid(4, 4, [255, 0, 0, 255]);
    let before = image.clone();
    let r = apply_logo_overlay(&mut image, &logo, 21, 1, 4, Fraction { num: 1, den: 100 });
    assert_eq!(r, Err(RenderError::LogoTooSmall));
    assert_eq!(image, before);
}

#[test]
fn opaque_logo_covers_the_centre() {
    let mut image = solid(290, 290, [255, 255, 255, 255]);
    let logo = solid(8, 8, [200, 10, 10, 255]);
    let r = apply_logo_overlay(&mut image, &logo, 25, 10, 20, Fraction { num: 1, den: 5 });
    assert_eq!(r, Ok(()));
    // the logo spans pixels 120..170 on both axes
    assert_eq!(image.pixels[145 * 290 + 145], [200, 10, 10, 255]);
    assert_eq!(image.pixels[120 * 290 + 120], [200, 10, 10, 255]);
    assert_eq!(image.pixels[169 * 290 + 169], [200, 10, 10, 255]);
    assert_eq!(image.pixels[119 * 290 + 145], [255, 255, 255, 255]);
    assert_eq!(image.pixels[170 * 290 + 145], [255, 255, 255, 255]);
}

#[test]
fn transparent_logo_leaves_the_code() {
    let mut image = solid(290, 290, [1, 2, 3, 255]);
    let logo = solid(8, 8, [200, 10, 10, 0]);
    let before = image.clone();
    assert_eq!(apply_logo_overlay(&mut image, &logo, 25, 10, 20, Fraction { num: 1, den: 5 }), Ok(()));
    assert_eq!(image, before);
}

#[test]
fn solid_background_is_opaque_everywhere() {
    let c = create_solid_background(5, [10, 20, 30]);
    assert_eq!(c.width, 5);
    assert_eq!(c.height, 5);
    assert_eq!(c.pixels.len(), 25);
    assert!(c.pixels.iter().all(|p| *p == [10, 20, 30, 255]));
}

#[test]
fn opaque_background_image_replaces_the_colour() {
    let bg = solid(3, 3, [0, 0, 255, 255]);
    let c = create_background_with_image(&bg, 12, Fraction { num: 1, den: 1 }, [255, 255, 255]);
    assert_eq!(c.width, 12);
    assert_eq!(c.pixels.len(), 144);
    assert!(c.pixels.iter().all(|p| *p == [0, 0, 255, 255]));
}

#[test]
fn faded_background_image_blends_with_the_colour() {
    let bg = solid(3, 3, [0, 0, 0, 255]);
    let c = create_background_with_image(&bg, 6, Fraction { num: 1, den: 2 }, [255, 255, 255]);
    let p = c.pixels[0];
    assert!(p[0] > 0 && p[0] < 255, "{:?}", p);
    assert_eq!(p[3], 255);
    assert!(c.pixels.iter().all(|q| *q == p));
}

#[test]
fn transparent_background_image_shows_the_colour() {
    let bg = solid(3, 3, [0, 0, 0, 255]);
    let c = create_background_with_image(&bg, 6, Fraction { num: 0, den: 1 }, [9, 8, 7]);
    assert!(c.pixels.iter().all(|q| *q == [9, 8, 7, 255]));
}

#[test]
fn half_opacity_halves_alpha_of_foreground_only() {
    let mut image = Canvas {
        width: 3,
        height: 1,
        pixels: vec![[0, 0, 0, 255], [255, 255, 255, 255], [255, 255, 254, 255]],
    };
    apply_qr_opacity(&mut image, Fraction { num: 1, den: 2 }, [255, 255, 255]);
    assert_eq!(image.pixels[0], [0, 0, 0, 127]);
    assert_eq!(image.pixels[1], [255, 255, 255, 255]);
    assert_eq!(image.pixels[2], [255, 255, 254, 127]);
}

#[test]
fn zero_opacity_clears_foreground_alpha() {
    let mut image = Canvas { width: 1, height: 1, pixels: vec![[5, 5, 5, 200]] };
    apply_qr_opacity(&mut image, Fraction { num: 0, den: 7 }, [0, 0, 0]);
    assert_eq!(image.pixels[0], [5, 5, 5, 0]);
}

#[test]
fn fade_scales_every_alpha() {
    let mut image = Canvas { width: 2, height: 1, pixels: vec![[255, 255, 255, 255], [1, 2, 3, 10]] };
    fade(&mut image, Fraction { num: 3, den: 10 });
    assert_eq!(image.pixels, vec![[255, 255, 255, 76], [1, 2, 3, 3]]);
}
