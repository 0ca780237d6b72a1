//! Verified core of a PHP language server: completion-item building,
//! hover type lookup over a PHP syntax tree, and variable definition
//! resolution.

pub mod completion;
pub mod definition;
pub mod hover;
pub mod text;
pub mod types;
