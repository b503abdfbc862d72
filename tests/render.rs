use qrtistry::canvas::Canvas;
use qrtistry::drawing::QrStyle;
use qrtistry::error::{EncodeError, RenderError};
use qrtistry::generator::{
    encode_text, eye_positions, generate_qr_image, render_matrix, BackgroundImage, Logo, QrMatrix,
    RenderConfig,
};
use qrtistry::layout::compute_layout;
use qrtistry::types::{ErrorCorrectionLevel, EyeStyle, Fraction, ModuleStyle, Rounding};

const FG: [u8; 4] = [0, 0, 0, 255];
const BG: [u8; 4] = [255, 255, 255, 255];

fn config(text: &str) -> RenderConfig {
    RenderConfig {
        text: text.to_string(),
        size: 512,
        border: 2,
        ec_level: ErrorCorrectionLevel::Medium,
        background_color: [255, 255, 255],
        style: QrStyle {
            foreground: [0, 0, 0],
            gradient: None,
            module_style: ModuleStyle::Square,
            rounding: Rounding::standard(),
            eye_style: EyeStyle::Standard,
            eye_color: None,
        },
        logo: None,
        background_image: None,
        opacity: Fraction { num: 1, den: 1 },
    }
}

fn at(c: &Canvas, x: u32, y: u32) -> [u8; 4] {
    c.pixels[(y * c.width + x) as usize]
}

#[test]
fn hello_with_defaults_end_to_end() {
    let img = generate_qr_image(&config("HELLO")).expect("renders");
    // version 1: 21 modules; 512 px and 2 border modules give 19 px modules
    let layout = compute_layout(512, 2, 21).unwrap();
    assert_eq!(layout.module_size, 19);
    assert_eq!(layout.canvas_size, 475);
    assert_eq!(img.width, layout.canvas_size);
    assert_eq!(img.height, layout.canvas_size);
    assert_eq!(img.pixels.len(), 475 * 475);
    assert!(img.pixels.iter().all(|p| *p == FG || *p == BG));
    let offset = layout.border_offset;
    assert_eq!(offset, 38);
    for y in 0..img.height {
        for x in 0..img.width {
            if x < offset || y < offset || x >= offset + 399 || y >= offset + 399 {
                assert_eq!(at(&img, x, y), BG);
            }
        }
    }
    for (ex, ey) in [(0u32, 0u32), (14, 0), (0, 14)] {
        for ry in 0..7u32 {
            for rx in 0..7u32 {
                let dark = rx == 0 || rx == 6 || ry == 0 || ry == 6
                    || ((2..=4).contains(&rx) && (2..=4).contains(&ry));
                let px = offset + (ex + rx) * 19 + 9;
                let py = offset + (ey + ry) * 19 + 9;
                assert_eq!(at(&img, px, py), if dark { FG } else { BG }, "eye {},{} at {},{}", ex, ey, rx, ry);
            }
        }
    }
}

#[test]
fn rendering_twice_is_identical() {
    let mut cfg = config("https://example.com/some/path?q=1");
    cfg.style.module_style = ModuleStyle::Circle;
    cfg.style.eye_style = EyeStyle::Flower;
    cfg.opacity = Fraction { num: 1, den: 2 };
    let a = generate_qr_image(&cfg).unwrap();
    let b = generate_qr_image(&cfg).unwrap();
    assert_eq!(a, b);
}

#[test]
fn too_long_text_is_an_encoding_error() {
    let mut cfg = config(&"a".repeat(5000));
    cfg.ec_level = ErrorCorrectionLevel::High;
    assert_eq!(generate_qr_image(&cfg), Err(RenderError::Encoding(EncodeError::DataTooLong)));
    assert_eq!(
        RenderError::Encoding(EncodeError::DataTooLong).message(),
        "Failed to create QR code: data too long"
    );
}

#[test]
fn tiny_size_is_a_sizing_error() {
    let mut cfg = config("HELLO");
    cfg.size = 20;
    assert_eq!(generate_qr_image(&cfg), Err(RenderError::Sizing));
    assert_eq!(
        RenderError::Sizing.message(),
        "Requested size is too small for the border and module count"
    );
}

#[test]
fn tiny_logo_is_a_logo_error() {
    let mut cfg = config("HELLO");
    cfg.logo = Some(Logo {
        image: Canvas { width: 2, height: 2, pixels: vec![[1, 2, 3, 255]; 4] },
        size: Fraction { num: 1, den: 1000 },
    });
    assert_eq!(generate_qr_image(&cfg), Err(RenderError::LogoTooSmall));
    assert_eq!(RenderError::LogoTooSmall.message(), "Logo size too small to render");
    assert_eq!(RenderError::LogoTooLarge.message(), "Logo size exceeds QR code dimensions");
}

#[test]
fn logo_sits_in_the_centre() {
    let mut cfg = config("HELLO");
    cfg.logo = Some(Logo {
        image: Canvas { width: 2, height: 2, pixels: vec![[200, 0, 0, 255]; 4] },
        size: Fraction { num: 1, den: 5 },
    });
    let img = generate_qr_image(&cfg).unwrap();
    // 399 px of code: logo of 79 px at 38 + 160 = 198
    assert_eq!(at(&img, 198, 198), [200, 0, 0, 255]);
    assert_eq!(at(&img, 276, 276), [200, 0, 0, 255]);
    assert_ne!(at(&img, 277, 277), [200, 0, 0, 255]);
}

#[test]
fn background_image_shows_through_light_modules() {
    let mut cfg = config("HELLO");
    cfg.background_image = Some(BackgroundImage {
        image: Canvas { width: 3, height: 3, pixels: vec![[0, 0, 255, 255]; 9] },
        opacity: Fraction { num: 1, den: 1 },
    });
    let img = generate_qr_image(&cfg).unwrap();
    assert_eq!(at(&img, 0, 0), [0, 0, 255, 255]);
    // centre of the top-left eye's light ring
    assert_eq!(at(&img, 38 + 19 + 9, 38 + 19 + 9), [0, 0, 255, 255]);
    assert_eq!(at(&img, 38 + 9, 38 + 9), FG);
}

#[test]
fn overall_opacity_fades_foreground_only() {
    let mut cfg = config("HELLO");
    cfg.opacity = Fraction { num: 1, den: 2 };
    let img = generate_qr_image(&cfg).unwrap();
    assert_eq!(at(&img, 38 + 9, 38 + 9), [0, 0, 0, 127]);
    assert_eq!(at(&img, 0, 0), BG);
}

#[test]
fn encoder_symbols_are_odd_and_at_least_21() {
    for level in [
        ErrorCorrectionLevel::Low,
        ErrorCorrectionLevel::Medium,
        ErrorCorrectionLevel::Quartile,
        ErrorCorrectionLevel::High,
    ] {
        for text in ["HELLO", "hello world", "https://example.com/a/rather/long/path/to/something"] {
            let m = encode_text(text, level).unwrap();
            assert!(m.width >= 21 && m.width % 2 == 1);
            assert_eq!(m.dark.len(), m.width * m.width);
        }
    }
    assert_eq!(encode_text("HELLO", ErrorCorrectionLevel::Medium).unwrap().width, 21);
}

#[test]
fn error_levels_map_to_the_encoder() {
    assert_eq!(ErrorCorrectionLevel::Low.to_ec_level(), qrcode::EcLevel::L);
    assert_eq!(ErrorCorrectionLevel::Medium.to_ec_level(), qrcode::EcLevel::M);
    assert_eq!(ErrorCorrectionLevel::Quartile.to_ec_level(), qrcode::EcLevel::Q);
    assert_eq!(ErrorCorrectionLevel::High.to_ec_level(), qrcode::EcLevel::H);
}

#[test]
fn render_of_a_given_matrix() {
    // a 21-module symbol whose only dark module is (10, 10)
    let mut dark = vec![false; 21 * 21];
    dark[10 * 21 + 10] = true;
    let matrix = QrMatrix { width: 21, dark };
    let mut cfg = config("unused");
    cfg.size = 25;
    cfg.border = 0;
    let img = render_matrix(&matrix, &cfg).unwrap();
    assert_eq!(img.width, 21);
    let set: Vec<usize> = (0..img.pixels.len()).filter(|&i| img.pixels[i] == FG).collect();
    assert_eq!(set, vec![10 * 21 + 10]);
}

#[test]
fn eye_corners() {
    assert_eq!(eye_positions(25), vec![(0, 0), (18, 0), (0, 18)]);
}
