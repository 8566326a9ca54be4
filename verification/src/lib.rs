//! Resolution engine that turns parsed stylesheet declarations into
//! Tailwind-style utility class tokens.
//!
//! All numeric CSS magnitudes are carried as fixed-point integers
//! (`numeric::SCALE` units per 1.0), so quantization, tolerance matching
//! and bucket classification are exact integer arithmetic.

pub mod numeric;
pub mod text;
pub mod token_set;
pub mod values;
pub mod registry;
pub mod quantize;
pub mod resolve;
pub mod dispatch;
pub mod media;
pub mod walker;
