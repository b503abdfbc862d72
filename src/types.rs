//! Styling vocabulary: error-correction levels, module and eye shapes,
//! gradient modes, exact fractions and the colour presets.

use vstd::prelude::*;

verus! {

/// The qrcode crate's error-correction level, a fieldless enum whose
/// variants verified code names directly.
#[verifier::external_type_specification]
pub struct ExEcLevel(qrcode::EcLevel);

/// QR error-correction level; higher levels survive more damage but need
/// more modules.
#[derive(Debug, Clone, Copy, PartialEq, Eq, Structural)]
pub enum ErrorCorrectionLevel {
    /// About 7% of codewords recoverable.
    Low,
    /// About 15% of codewords recoverable.
    Medium,
    /// About 25% of codewords recoverable.
    Quartile,
    /// About 30% of codewords recoverable.
    High,
}

/// The encoder's level that corresponds to `level`.
pub open spec fn ec_level_of(level: ErrorCorrectionLevel) -> qrcode::EcLevel {
    match level {
        ErrorCorrectionLevel::Low => qrcode::EcLevel::L,
        ErrorCorrectionLevel::Medium => qrcode::EcLevel::M,
        ErrorCorrectionLevel::Quartile => qrcode::EcLevel::Q,
        ErrorCorrectionLevel::High => qrcode::EcLevel::H,
    }
}

impl ErrorCorrectionLevel {
    /// The encoder's level for this one.
    pub fn to_ec_level(&self) -> (r: qrcode::EcLevel)
        ensures
            r == ec_level_of(*self),
    {
        match self {
            ErrorCorrectionLevel::Low => qrcode::EcLevel::L,
            ErrorCorrectionLevel::Medium => qrcode::EcLevel::M,
            ErrorCorrectionLevel::Quartile => qrcode::EcLevel::Q,
            ErrorCorrectionLevel::High => qrcode::EcLevel::H,
        }
    }
}

/// Shape of a data (non-finder) module.
#[derive(Debug, Clone, Copy, PartialEq, Eq, Structural)]
pub enum ModuleStyle {
    /// The whole module square.
    Square,
    /// The circle inscribed in the module.
    Circle,
    /// A square whose corners are rounded off.
    RoundedSquare,
    /// A circle of 70% of the module's side.
    Dots,
}

/// Group of controls shown by a user interface.
#[derive(Debug, Clone, Copy, PartialEq, Eq, Structural)]
pub enum TabSelection {
    Basic,
    Style,
    Advanced,
    Images,
}

/// Direction in which a gradient runs.
#[derive(Debug, Clone, Copy, PartialEq, Eq, Structural)]
pub enum GradientType {
    /// Left to right.
    Horizontal,
    /// Top to bottom.
    Vertical,
    /// Top-left to bottom-right.
    Diagonal,
    /// From the centre outwards.
    Radial,
}

/// Decoration of the three 7x7 finder patterns.
#[derive(Debug, Clone, Copy, PartialEq, Eq, Structural)]
pub enum EyeStyle {
    Standard,
    Circle,
    RoundedSquare,
    Flower,
    Diamond,
}

/// An exact fraction `num / den` in `[0, 1]`; stands for opacities, the
/// corner-radius fraction and the logo size fraction.
#[derive(Debug, Clone, Copy, PartialEq, Eq, Structural)]
pub struct Fraction {
    pub num: u32,
    pub den: u32,
}

impl Fraction {
    pub open spec fn wf(&self) -> bool {
        0 < self.den && self.num <= self.den
    }

    /// `floor(v * self)`.
    pub open spec fn scale(&self, v: int) -> int {
        v * self.num / self.den as int
    }

    /// Whether the fraction is below one.
    pub open spec fn below_one(&self) -> bool {
        self.num < self.den
    }

    /// `floor(v * self)`, exactly.
    pub fn scale_u32(&self, v: u32) -> (r: u32)
        requires
            self.wf(),
        ensures
            r == self.scale(v as int),
            r <= v,
    {
        proof {
            assert(v as int * self.num <= u32::MAX as int * u32::MAX as int) by (nonlinear_arith)
                requires
                    v <= u32::MAX,
                    self.num <= u32::MAX,
            ;
        }
        let p: u64 = v as u64 * self.num as u64;
        proof {
            assert(v as int * self.num <= v as int * self.den) by (nonlinear_arith)
                requires
                    self.num <= self.den,
            ;
            assert(v as int * self.num / self.den as int <= v as int) by (nonlinear_arith)
                requires
                    v as int * self.num <= v as int * self.den,
                    0 < self.den,
            ;
            assert(0 <= v as int * self.num) by (nonlinear_arith);
        }
        (p / self.den as u64) as u32
    }
}

/// Corner rounding of rounded-square modules: the radius is `fraction` of
/// the module side when `enabled`, else one fifth of it.
#[derive(Debug, Clone, Copy, PartialEq, Eq, Structural)]
pub struct Rounding {
    pub enabled: bool,
    pub fraction: Fraction,
}

/// One fifth: the corner-radius fraction used whenever custom rounding is
/// not enabled.
pub open spec fn default_corner_fraction() -> Fraction {
    Fraction { num: 1, den: 5 }
}

impl Rounding {
    pub open spec fn wf(&self) -> bool {
        self.fraction.wf()
    }

    /// The fraction of the module side that the corner radius spans.
    pub open spec fn effective(&self) -> Fraction {
        if self.enabled {
            self.fraction
        } else {
            default_corner_fraction()
        }
    }

    /// The corner radius, in pixels, of a module of side `size`.
    pub open spec fn radius_spec(&self, size: int) -> int {
        self.effective().scale(size)
    }

    /// Rounding switched off, so that the one-fifth default applies; the
    /// custom fraction it would use once enabled is three tenths.
    pub fn standard() -> (r: Rounding)
        ensures
            r.wf(),
            !r.enabled,
            r.effective() == default_corner_fraction(),
    {
        Rounding { enabled: false, fraction: Fraction { num: 3, den: 10 } }
    }

    /// The corner radius, in pixels, of a module of side `size`.
    pub fn radius_px(&self, size: u32) -> (r: u32)
        requires
            self.wf(),
        ensures
            r == self.radius_spec(size as int),
            r <= size,
    {
        if self.enabled {
            self.fraction.scale_u32(size)
        } else {
            let d = Fraction { num: 1, den: 5 };
            d.scale_u32(size)
        }
    }
}

/// A named foreground/background pair.
pub struct ColorPreset {
    pub name: &'static str,
    pub fg: [u8; 3],
    pub bg: [u8; 3],
}

/// The built-in colour presets, in display order.
pub fn color_presets() -> (r: Vec<ColorPreset>)
    ensures
        r.len() == 8,
        r[0].name@ == "Classic"@ && r[0].fg@ == seq![0u8, 0, 0] && r[0].bg@ == seq![255u8, 255, 255],
        r[1].name@ == "Ocean"@ && r[1].fg@ == seq![0u8, 119, 182] && r[1].bg@ == seq![224u8, 247, 250],
        r[2].name@ == "Sunset"@ && r[2].fg@ == seq![255u8, 87, 34] && r[2].bg@ == seq![255u8, 243, 224],
        r[3].name@ == "Forest"@ && r[3].fg@ == seq![27u8, 94, 32] && r[3].bg@ == seq![232u8, 245, 233],
        r[4].name@ == "Purple"@ && r[4].fg@ == seq![123u8, 31, 162] && r[4].bg@ == seq![243u8, 229, 245],
        r[5].name@ == "Rose"@ && r[5].fg@ == seq![194u8, 24, 91] && r[5].bg@ == seq![252u8, 228, 236],
        r[6].name@ == "Night"@ && r[6].fg@ == seq![255u8, 255, 255] && r[6].bg@ == seq![33u8, 33, 33],
        r[7].name@ == "Cyber"@ && r[7].fg@ == seq![0u8, 255, 255] && r[7].bg@ == seq![10u8, 10, 40],
{
    let r = vec![
        ColorPreset { name: "Classic", fg: [0, 0, 0], bg: [255, 255, 255] },
        ColorPreset { name: "Ocean", fg: [0, 119, 182], bg: [224, 247, 250] },
        ColorPreset { name: "Sunset", fg: [255, 87, 34], bg: [255, 243, 224] },
        ColorPreset { name: "Forest", fg: [27, 94, 32], bg: [232, 245, 233] },
        ColorPreset { name: "Purple", fg: [123, 31, 162], bg: [243, 229, 245] },
        ColorPreset { name: "Rose", fg: [194, 24, 91], bg: [252, 228, 236] },
        ColorPreset { name: "Night", fg: [255, 255, 255], bg: [33, 33, 33] },
        ColorPreset { name: "Cyber", fg: [0, 255, 255], bg: [10, 10, 40] },
    ];
    assert(r[0].fg@ =~= seq![0u8, 0, 0] && r[0].bg@ =~= seq![255u8, 255, 255]);
    assert(r[1].fg@ =~= seq![0u8, 119, 182] && r[1].bg@ =~= seq![224u8, 247, 250]);
    assert(r[2].fg@ =~= seq![255u8, 87, 34] && r[2].bg@ =~= seq![255u8, 243, 224]);
    assert(r[3].fg@ =~= seq![27u8, 94, 32] && r[3].bg@ =~= seq![232u8, 245, 233]);
    assert(r[4].fg@ =~= seq![123u8, 31, 162] && r[4].bg@ =~= seq![243u8, 229, 245]);
    assert(r[5].fg@ =~= seq![194u8, 24, 91] && r[5].bg@ =~= seq![252u8, 228, 236]);
    assert(r[6].fg@ =~= seq![255u8, 255, 255] && r[6].bg@ =~= seq![33u8, 33, 33]);
    assert(r[7].fg@ =~= seq![0u8, 255, 255] && r[7].bg@ =~= seq![10u8, 10, 40]);
    r
}

} // verus!
