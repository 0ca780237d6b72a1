//! Member completion.

pub mod builder;
pub mod item;
pub mod properties;
pub mod sort;
