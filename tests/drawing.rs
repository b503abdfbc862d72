use qrtistry::canvas::Canvas;
use qrtistry::colors::Gradient;
use qrtistry::drawing::{
    draw_circle, draw_data_module, draw_dot, draw_eye_module, draw_rounded_square, draw_square,
    QrStyle,
};
use qrtistry::types::{EyeStyle, Fraction, GradientType, ModuleStyle, Rounding};

const BG: [u8; 4] = [255, 255, 255, 255];
const FG: [u8; 4] = [0, 0, 0, 255];

fn blank(side: u32) -> Canvas {
    Canvas { width: side, height: side, pixels: vec![BG; (side * side) as usize] }
}

fn at(c: &Canvas, x: u32, y: u32) -> [u8; 4] {
    c.pixels[(y * c.width + x) as usize]
}

fn painted_set(c: &Canvas) -> Vec<(u32, u32)> {
    let mut v = Vec::new();
    for y in 0..c.height {
        for x in 0..c.width {
            if at(c, x, y) != BG {
                v.push((x, y));
            }
        }
    }
    v
}

fn style(module_style: ModuleStyle, eye_style: EyeStyle) -> QrStyle {
    QrStyle {
        foreground: [0, 0, 0],
        gradient: None,
        module_style,
        rounding: Rounding::standard(),
        eye_style,
        eye_color: None,
    }
}

#[test]
fn square_fills_the_box_and_clips() {
    let mut c = blank(10);
    draw_square(&mut c, 8, 7, 5, FG);
    let set = painted_set(&c);
    assert_eq!(set.len(), 2 * 3);
    assert!(set.iter().all(|&(x, y)| x >= 8 && y >= 7));
}

#[test]
fn circle_fills_exactly_the_inscribed_disc() {
    for s in 1..12u32 {
        let mut c = blank(s + 2);
        draw_circle(&mut c, 1, 1, s, FG);
        for dy in 0..s {
            for dx in 0..s {
                // doubled distances from the pixel centre to the module centre
                let (ex, ey) = (2 * dx as i64 + 1 - s as i64, 2 * dy as i64 + 1 - s as i64);
                let inside = ex * ex + ey * ey <= (s * s) as i64;
                assert_eq!(at(&c, 1 + dx, 1 + dy) == FG, inside, "s={} dx={} dy={}", s, dx, dy);
            }
        }
        // symmetric about both centre lines: dx and s - 1 - dx alike
        for dy in 0..s {
            for dx in 0..s {
                assert_eq!(at(&c, 1 + dx, 1 + dy), at(&c, s - dx, 1 + dy));
                assert_eq!(at(&c, 1 + dx, 1 + dy), at(&c, 1 + dx, s - dy));
            }
        }
        // nothing outside the module's box
        assert!(painted_set(&c).iter().all(|&(x, y)| x >= 1 && y >= 1 && x <= s && y <= s));
    }
}

#[test]
fn circle_of_side_one_paints_its_pixel() {
    let mut c = blank(1);
    draw_circle(&mut c, 0, 0, 1, FG);
    assert_eq!(at(&c, 0, 0), FG);
}

#[test]
fn circle_of_side_two_paints_all_four() {
    let mut c = blank(2);
    draw_circle(&mut c, 0, 0, 2, FG);
    assert_eq!(painted_set(&c).len(), 4);
}

#[test]
fn circle_of_side_four() {
    let mut c = blank(4);
    draw_circle(&mut c, 0, 0, 4, FG);
    // the four corner pixels' centres lie sqrt(4.5) > 2 from the centre
    assert_eq!(at(&c, 0, 0), BG);
    assert_eq!(at(&c, 3, 0), BG);
    assert_eq!(at(&c, 0, 3), BG);
    assert_eq!(at(&c, 3, 3), BG);
    assert_eq!(at(&c, 0, 2), FG);
    assert_eq!(at(&c, 2, 0), FG);
    assert_eq!(at(&c, 1, 1), FG);
    assert_eq!(painted_set(&c).len(), 12);
}

#[test]
fn dot_is_smaller_than_circle() {
    let mut c = blank(10);
    draw_dot(&mut c, 0, 0, 10, FG);
    assert_eq!(at(&c, 5, 5), FG);
    assert_eq!(at(&c, 2, 5), FG); // centre (2.5, 5.5): sqrt(6.5) from (5, 5)
    assert_eq!(at(&c, 1, 5), BG); // centre (1.5, 5.5): sqrt(12.5) > 3.5
    assert_eq!(at(&c, 8, 5), BG); // centre (8.5, 5.5): sqrt(12.5) > 3.5
    assert_eq!(at(&c, 7, 5), FG);
    let mut d = blank(10);
    draw_circle(&mut d, 0, 0, 10, FG);
    assert_eq!(at(&d, 1, 5), FG);
    assert!(painted_set(&c).len() < painted_set(&d).len());
}

#[test]
fn rounded_square_default_radius_is_a_fifth() {
    let mut c = blank(10);
    draw_rounded_square(&mut c, 0, 0, 10, FG, &Rounding::standard());
    // radius 2: the centre (0.5, 0.5) of pixel (0, 0) is 1.5*sqrt(2) from (2, 2)
    assert_eq!(at(&c, 0, 0), BG);
    assert_eq!(at(&c, 9, 0), BG);
    assert_eq!(at(&c, 0, 9), BG);
    assert_eq!(at(&c, 9, 9), BG);
    assert_eq!(at(&c, 1, 0), FG);
    assert_eq!(at(&c, 8, 9), FG);
    assert_eq!(at(&c, 1, 1), FG);
    assert_eq!(at(&c, 5, 5), FG);
    assert_eq!(at(&c, 0, 5), FG);
    assert_eq!(at(&c, 5, 0), FG);
    assert_eq!(painted_set(&c).len(), 96);
    // the four corners are rounded alike
    for y in 0..10 {
        for x in 0..10 {
            assert_eq!(at(&c, x, y), at(&c, 9 - x, y));
            assert_eq!(at(&c, x, y), at(&c, x, 9 - y));
        }
    }
}

#[test]
fn rounded_square_custom_radius() {
    let mut c = blank(10);
    let r = Rounding { enabled: true, fraction: Fraction { num: 1, den: 2 } };
    draw_rounded_square(&mut c, 0, 0, 10, FG, &r);
    // radius 5: every pixel is in a corner, and its centre must lie within
    // 5 of (5, 5)
    assert_eq!(at(&c, 0, 5), FG);
    assert_eq!(at(&c, 1, 1), FG);
    assert_eq!(at(&c, 0, 0), BG);
    assert_eq!(at(&c, 0, 1), BG);
    assert_eq!(at(&c, 9, 9), BG);
    let mut z = blank(10);
    let none = Rounding { enabled: true, fraction: Fraction { num: 0, den: 1 } };
    draw_rounded_square(&mut z, 0, 0, 10, FG, &none);
    assert_eq!(painted_set(&z).len(), 100);
}

#[test]
fn data_module_uses_gradient_colour() {
    let mut c = blank(20);
    let mut s = style(ModuleStyle::Square, EyeStyle::Standard);
    s.gradient = Some(Gradient { mode: GradientType::Horizontal, end_color: [255, 255, 255] });
    draw_data_module(&mut c, &s, 0, 0, 10, 0, 5);
    assert_eq!(at(&c, 12, 2), [127, 127, 127, 255]);
    s.gradient = None;
    s.foreground = [1, 2, 3];
    draw_data_module(&mut c, &s, 0, 0, 0, 10, 5);
    assert_eq!(at(&c, 2, 12), [1, 2, 3, 255]);
}

#[test]
fn data_module_shapes_dispatch() {
    let mut a = blank(10);
    draw_data_module(&mut a, &style(ModuleStyle::Circle, EyeStyle::Standard), 0, 0, 0, 0, 10);
    let mut b = blank(10);
    draw_circle(&mut b, 0, 0, 10, FG);
    assert_eq!(a, b);
    let mut a = blank(10);
    draw_data_module(&mut a, &style(ModuleStyle::Dots, EyeStyle::Standard), 0, 0, 0, 0, 10);
    let mut b = blank(10);
    draw_dot(&mut b, 0, 0, 10, FG);
    assert_eq!(a, b);
}

fn eye_cell(eye: EyeStyle, rx: usize, ry: usize) -> Canvas {
    let mut c = blank(20);
    let eyes = [(0usize, 0usize), (14, 0), (0, 14)];
    draw_eye_module(&mut c, &style(ModuleStyle::Square, eye), 14 + rx, ry, 5, 5, 10, &eyes);
    c
}

#[test]
fn circle_eye_leaves_the_moat() {
    assert!(painted_set(&eye_cell(EyeStyle::Circle, 2, 2)).is_empty());
    assert!(painted_set(&eye_cell(EyeStyle::Circle, 4, 3)).is_empty());
    let centre = eye_cell(EyeStyle::Circle, 3, 3);
    let mut disc = blank(20);
    draw_circle(&mut disc, 5, 5, 10, FG);
    assert_eq!(centre, disc);
    assert_eq!(eye_cell(EyeStyle::Circle, 1, 3), disc);
}

#[test]
fn diamond_eye_paints_two_rings() {
    assert!(painted_set(&eye_cell(EyeStyle::Diamond, 3, 3)).is_empty());
    assert_eq!(painted_set(&eye_cell(EyeStyle::Diamond, 3, 2)).len(), 100);
    assert!(painted_set(&eye_cell(EyeStyle::Diamond, 2, 2)).is_empty());
    assert_eq!(painted_set(&eye_cell(EyeStyle::Diamond, 0, 3)).len(), 100);
    assert!(painted_set(&eye_cell(EyeStyle::Diamond, 0, 0)).is_empty());
}

#[test]
fn flower_eye_alternates_and_ignores_custom_rounding() {
    assert!(painted_set(&eye_cell(EyeStyle::Flower, 1, 1)).is_empty());
    let mut disc = blank(20);
    draw_circle(&mut disc, 5, 5, 10, FG);
    assert_eq!(eye_cell(EyeStyle::Flower, 0, 0), disc);
    let mut petal = blank(20);
    draw_rounded_square(&mut petal, 5, 5, 10, FG, &Rounding::standard());
    // a custom rounding does not change the petals
    let mut s = style(ModuleStyle::Square, EyeStyle::Flower);
    s.rounding = Rounding { enabled: true, fraction: Fraction { num: 1, den: 2 } };
    let eyes = [(0usize, 0usize), (14, 0), (0, 14)];
    let mut c = blank(20);
    draw_eye_module(&mut c, &s, 14, 1, 5, 5, 10, &eyes);
    assert_eq!(c, petal);
    let mut c = blank(20);
    draw_eye_module(&mut c, &s, 14 + 3, 2, 5, 5, 10, &eyes);
    assert_eq!(c, petal);
    let mut c = blank(20);
    draw_eye_module(&mut c, &s, 14 + 1, 2, 5, 5, 10, &eyes);
    assert_eq!(c, blank(20));
}

#[test]
fn eye_colour_override_wins() {
    let mut c = blank(20);
    let mut s = style(ModuleStyle::Square, EyeStyle::Standard);
    s.eye_color = Some([9, 8, 7]);
    s.gradient = Some(Gradient { mode: GradientType::Vertical, end_color: [255, 0, 0] });
    draw_eye_module(&mut c, &s, 0, 0, 0, 0, 4, &[(0, 0)]);
    assert_eq!(at(&c, 1, 1), [9, 8, 7, 255]);
}

#[test]
fn module_outside_every_eye_is_not_drawn() {
    let mut c = blank(20);
    draw_eye_module(&mut c, &style(ModuleStyle::Square, EyeStyle::Standard), 8, 8, 0, 0, 4, &[(0, 0)]);
    assert_eq!(c, blank(20));
}
