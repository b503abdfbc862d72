//! Failures of a render.

use vstd::prelude::*;

verus! {

/// The qrcode crate's encoding error, a fieldless enum whose variants
/// verified code tells apart.
#[verifier::external_type_specification]
pub struct ExQrError(qrcode::types::QrError);

/// Why the encoder rejected the payload.
#[derive(Debug, Clone, Copy, PartialEq, Eq, Structural)]
pub enum EncodeError {
    DataTooLong,
    InvalidVersion,
    UnsupportedCharacterSet,
    InvalidEciDesignator,
    InvalidCharacter,
}

/// A failed render.
#[derive(Debug, Clone, Copy, PartialEq, Eq, Structural)]
pub enum RenderError {
    /// The encoder rejected the payload at the requested level.
    Encoding(EncodeError),
    /// The requested size leaves no whole pixel per module.
    Sizing,
    /// The logo would be less than one pixel wide.
    LogoTooSmall,
    /// The logo would be wider than the code itself.
    LogoTooLarge,
}

/// The error of the library's own that stands for the encoder's `e`.
pub open spec fn encode_error_spec(e: qrcode::types::QrError) -> EncodeError {
    match e {
        qrcode::types::QrError::DataTooLong => EncodeError::DataTooLong,
        qrcode::types::QrError::InvalidVersion => EncodeError::InvalidVersion,
        qrcode::types::QrError::UnsupportedCharacterSet => EncodeError::UnsupportedCharacterSet,
        qrcode::types::QrError::InvalidEciDesignator => EncodeError::InvalidEciDesignator,
        qrcode::types::QrError::InvalidCharacter => EncodeError::InvalidCharacter,
    }
}

impl EncodeError {
    /// The error of the library's own that stands for the encoder's `e`.
    pub fn from_qr_error(e: qrcode::types::QrError) -> (r: EncodeError)
        ensures
            r == encode_error_spec(e),
    {
        match e {
            qrcode::types::QrError::DataTooLong => EncodeError::DataTooLong,
            qrcode::types::QrError::InvalidVersion => EncodeError::InvalidVersion,
            qrcode::types::QrError::UnsupportedCharacterSet => EncodeError::UnsupportedCharacterSet,
            qrcode::types::QrError::InvalidEciDesignator => EncodeError::InvalidEciDesignator,
            qrcode::types::QrError::InvalidCharacter => EncodeError::InvalidCharacter,
        }
    }
}

impl RenderError {
    /// A sentence that describes the failure.
    pub fn message(&self) -> (r: String)
        ensures
            *self == RenderError::Sizing ==> r@ == "Requested size is too small for the border and module count"@,
            *self == RenderError::LogoTooSmall ==> r@ == "Logo size too small to render"@,
            *self == RenderError::LogoTooLarge ==> r@ == "Logo size exceeds QR code dimensions"@,
            *self == RenderError::Encoding(EncodeError::DataTooLong) ==> r@
                == "Failed to create QR code: data too long"@,
    {
        match self {
            RenderError::Encoding(EncodeError::DataTooLong) => "Failed to create QR code: data too long".to_owned(),
            RenderError::Encoding(EncodeError::InvalidVersion) => "Failed to create QR code: invalid version".to_owned(),
            RenderError::Encoding(EncodeError::UnsupportedCharacterSet) => "Failed to create QR code: unsupported character set".to_owned(),
            RenderError::Encoding(EncodeError::InvalidEciDesignator) => "Failed to create QR code: invalid ECI designator".to_owned(),
            RenderError::Encoding(EncodeError::InvalidCharacter) => "Failed to create QR code: invalid character".to_owned(),
            RenderError::Sizing => "Requested size is too small for the border and module count".to_owned(),
            RenderError::LogoTooSmall => "Logo size too small to render".to_owned(),
            RenderError::LogoTooLarge => "Logo size exceeds QR code dimensions".to_owned(),
        }
    }
}

} // verus!
