//! Converters from the normalised icon model to archives and component text.

pub mod iconsets;
pub mod svgl;
pub mod utils;
