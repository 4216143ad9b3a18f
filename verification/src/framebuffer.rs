//! Render passes: what they are made of, and how they compare.

pub mod compatibility;
pub mod traits;
