//! Styled QR code rasterization: module shapes, finder-pattern styles,
//! gradients and compositing of logo and background layers.

pub mod types;
pub mod colors;
pub mod canvas;
pub mod drawing;
pub mod error;
pub mod layout;
pub mod images;
pub mod generator;
