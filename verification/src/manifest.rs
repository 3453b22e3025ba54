//! What a manifest may say beyond its dependencies.
pub mod resolutions;
