//! Hover support: the type of a variable at the cursor.

pub mod docblock;
pub mod properties;
pub mod syntax;
pub mod variable_type;
