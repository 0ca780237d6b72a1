//! Go-to-definition.

pub mod variable;
