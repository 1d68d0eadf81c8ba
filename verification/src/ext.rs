//! Presentation extensions for `Option` and `Result` values.

pub mod option;
pub mod result;
