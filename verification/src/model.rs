//! The parts of a parsed struct declaration that the code generator reads,
//! held as plain values.

use vstd::prelude::*;

verus! {

/// One argument inside an attribute's parentheses, such as `name = "x"`.
pub enum MetaArg {
    /// A `path = "string literal"` argument. `ident` is the path when it is a
    /// single identifier (and `None` otherwise); `value` is the literal's value.
    NameStr { ident: Option<String>, value: String },
    /// Any other argument: a bare path, a list, or a name with a non-string value.
    Other,
}

/// An attribute on a field, such as `#[field(name = "x", ty = "I")]`.
pub struct AttrModel {
    /// The attribute's path when it is a single identifier.
    pub ident: Option<String>,
    /// The arguments between the parentheses, or `None` when they do not parse
    /// as a comma-separated list of meta items.
    pub args: Option<Vec<MetaArg>>,
}

/// A parameter of a bare function type such as `fn(pause: bool) -> ()`.
pub struct FnArgModel {
    /// The parameter's name, when it has one, as identifier text.
    pub name: Option<String>,
    /// The parameter's type, as token text (for example `& str`).
    pub ty: String,
}

/// The shape of a field's type, as far as the generator looks into it.
pub enum FieldTypeModel {
    /// A bare function type; `output` is the return type's token text, or
    /// `None` when the type has no `->`.
    BareFn { inputs: Vec<FnArgModel>, output: Option<String> },
    /// Any other type.
    Other,
}

/// A field of the struct that the derive is applied to.
pub struct FieldModel {
    /// The field's name, `None` for a field of a tuple struct.
    pub ident: Option<String>,
    /// The field's type as token text (for example `Minecraft` or `f32`).
    pub ty_text: String,
    /// The field's type, seen as a bare function type or not.
    pub ty: FieldTypeModel,
    /// The field's attributes, in source order.
    pub attrs: Vec<AttrModel>,
}

/// The data of the item that the derive is applied to.
pub enum DataModel {
    /// A struct, with its fields in source order.
    Struct(Vec<FieldModel>),
    Enum,
    Union,
}

/// The item that the derive is applied to.
pub struct DeriveInputModel {
    /// The item's name as identifier text.
    pub ident: String,
    pub data: DataModel,
}

/// The fields of a struct, as the field-rewriting attribute sees them.
pub enum FieldsShape {
    /// Named fields, given by their names in source order.
    Named(Vec<String>),
    Unnamed,
    Unit,
}

/// The data of the item that the field-rewriting attribute is applied to.
pub enum DataShape {
    Struct(FieldsShape),
    Enum,
    Union,
}

} // verus!
