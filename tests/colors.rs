use qrtistry::colors::{
    get_gradient_color, gradient_factor, interpolate_rgb, lerp, BlendFactor, Gradient,
};
use qrtistry::types::GradientType;

fn half() -> BlendFactor {
    BlendFactor::linear(1, 2)
}

#[test]
fn test_lerp() {
    assert_eq!(lerp(0, 255, BlendFactor::linear(0, 1)), 0);
    assert_eq!(lerp(0, 255, BlendFactor::linear(1, 1)), 255);
    assert_eq!(lerp(0, 255, half()), 127);
}

#[test]
fn test_interpolate_rgb() {
    let black = [0, 0, 0];
    let white = [255, 255, 255];

    let result = interpolate_rgb(black, white, half());
    assert_eq!(result[0], 127);
    assert_eq!(result[1], 127);
    assert_eq!(result[2], 127);
    assert_eq!(result[3], 255); // Alpha is always 255
}

#[test]
fn lerp_downwards_truncates() {
    // 255 - 127.5 = 127.5, truncated
    assert_eq!(lerp(255, 0, half()), 127);
    // 200 + (100 - 200) / 3 = 166.67
    assert_eq!(lerp(200, 100, BlendFactor::linear(1, 3)), 166);
    // 100 + 100 / 3 = 133.33
    assert_eq!(lerp(100, 200, BlendFactor::linear(1, 3)), 133);
    assert_eq!(lerp(42, 42, BlendFactor::linear(3, 7)), 42);
}

#[test]
fn lerp_of_a_square_root_factor() {
    // t = sqrt(1/8) = 0.3535..., 255 * t = 90.16
    assert_eq!(lerp(0, 255, BlendFactor { num: 1, den: 8 }), 90);
    assert_eq!(lerp(255, 0, BlendFactor { num: 1, den: 8 }), 164);
}

#[test]
fn factors_of_each_mode() {
    let h = gradient_factor(GradientType::Horizontal, 30, 7, 120, 80);
    assert_eq!((h.num, h.den), (900, 14400));
    let v = gradient_factor(GradientType::Vertical, 30, 7, 120, 80);
    assert_eq!((v.num, v.den), (49, 6400));
    let d = gradient_factor(GradientType::Diagonal, 30, 7, 120, 80);
    assert_eq!((d.num, d.den), (37 * 37, 200 * 200));
    // doubled distances: (60 - 120, 14 - 80) -> 3600 + 4356; 120^2 + 80^2 = 20800
    let r = gradient_factor(GradientType::Radial, 30, 7, 120, 80);
    assert_eq!((r.num, r.den), (7956, 20800));
}

#[test]
fn gradient_extremes_are_exact() {
    let fg = [10, 20, 30];
    let end = [200, 100, 0];
    let g = |mode| Gradient { mode, end_color: end };
    let (w, h) = (100, 60);
    assert_eq!(get_gradient_color(0, 33, w, h, &g(GradientType::Horizontal), fg), [10, 20, 30, 255]);
    assert_eq!(get_gradient_color(w, 33, w, h, &g(GradientType::Horizontal), fg), [200, 100, 0, 255]);
    assert_eq!(get_gradient_color(17, 0, w, h, &g(GradientType::Vertical), fg), [10, 20, 30, 255]);
    assert_eq!(get_gradient_color(17, h, w, h, &g(GradientType::Vertical), fg), [200, 100, 0, 255]);
    assert_eq!(get_gradient_color(0, 0, w, h, &g(GradientType::Diagonal), fg), [10, 20, 30, 255]);
    assert_eq!(get_gradient_color(w, h, w, h, &g(GradientType::Diagonal), fg), [200, 100, 0, 255]);
    assert_eq!(get_gradient_color(50, 30, w, h, &g(GradientType::Radial), fg), [10, 20, 30, 255]);
    assert_eq!(get_gradient_color(0, 0, w, h, &g(GradientType::Radial), fg), [200, 100, 0, 255]);
    assert_eq!(get_gradient_color(w, h, w, h, &g(GradientType::Radial), fg), [200, 100, 0, 255]);
}

#[test]
fn gradient_midpoint_between_black_and_white() {
    let g = Gradient { mode: GradientType::Horizontal, end_color: [255, 255, 255] };
    assert_eq!(get_gradient_color(50, 0, 100, 100, &g, [0, 0, 0]), [127, 127, 127, 255]);
    let v = Gradient { mode: GradientType::Vertical, end_color: [255, 255, 255] };
    assert_eq!(get_gradient_color(0, 25, 100, 100, &v, [0, 0, 0]), [63, 63, 63, 255]);
}
