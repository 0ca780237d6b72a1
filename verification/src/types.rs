//! The class model that completion works on: what a class declares, as
//! plain values.
use vstd::prelude::*;

verus! {

/// Member visibility.
#[derive(Clone, Copy, Debug, PartialEq, Eq, Structural)]
pub enum Visibility {
    Public,
    Protected,
    Private,
}

/// How a member is being accessed at the completion point.
#[derive(Clone, Copy, Debug, PartialEq, Eq, Structural)]
pub enum AccessKind {
    /// `$obj->`
    Arrow,
    /// `ClassName::`
    DoubleColon,
    /// `self::`, `static::` or `parent::`
    ParentDoubleColon,
    /// Unqualified access.
    Other,
}

/// A parameter of a callable.
#[derive(Clone, Debug)]
pub struct ParameterInfo {
    /// The parameter's name, with its `$`.
    pub name: String,
    pub type_hint: Option<String>,
    pub is_required: bool,
    pub is_variadic: bool,
    pub is_reference: bool,
    /// The default value's source text (e.g. `false`), when known.
    pub default_value: Option<String>,
}

/// A method of a class.
#[derive(Clone, Debug)]
pub struct MethodInfo {
    pub name: String,
    pub parameters: Vec<ParameterInfo>,
    pub return_type: Option<String>,
    pub is_static: bool,
    pub visibility: Visibility,
    pub is_deprecated: bool,
}

/// A property of a class (name without its `$`).
#[derive(Clone, Debug)]
pub struct PropertyInfo {
    pub name: String,
    pub type_hint: Option<String>,
    pub is_static: bool,
    pub visibility: Visibility,
    pub is_deprecated: bool,
}

/// A class constant.
#[derive(Clone, Debug)]
pub struct ConstantInfo {
    pub name: String,
    pub type_hint: Option<String>,
    pub visibility: Visibility,
    pub is_deprecated: bool,
}

/// A class, interface, trait or enum with its members.
#[derive(Clone, Debug)]
pub struct ClassInfo {
    pub name: String,
    pub methods: Vec<MethodInfo>,
    pub properties: Vec<PropertyInfo>,
    pub constants: Vec<ConstantInfo>,
}

} // verus!
