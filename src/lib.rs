//! Conversion of decoded columnar records into a small, dynamically typed value model.

pub mod convert;
pub mod decimal;
pub mod laws;
pub mod value;
