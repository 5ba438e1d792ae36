//! Plain-value description of an annotated enum, the calling conventions of
//! the generated dispatch, and the diagnostics that stop generation.
use vstd::prelude::*;

verus! {

/// An attribute attached to an enum or to one of its variants.
pub struct Annotation {
    /// The attribute's path when it is a single identifier (`handler`), else `None`.
    pub path: Option<String>,
    /// The attribute's tokens after the path, as text, e.g. `(handle_one)`.
    pub tokens: String,
}

/// One field of a variant.
pub struct FieldDesc {
    /// The field's name; `None` for a positional field.
    pub name: Option<String>,
}

/// One variant of the enum.
pub struct VariantDesc {
    pub name: String,
    pub fields: Vec<FieldDesc>,
    pub annotations: Vec<Annotation>,
}

/// The type handed to generation.
pub struct EnumDesc {
    pub name: String,
    /// Whether the type is an enum at all (structs and unions are not).
    pub is_enum: bool,
    pub annotations: Vec<Annotation>,
    pub variants: Vec<VariantDesc>,
}

/// How the generated handler calls receive the auxiliary argument.
#[derive(Clone, Copy, PartialEq, Eq, Structural, Debug)]
pub enum ArgMode {
    /// No extra argument.
    NoArgument,
    /// A shared reference, passed on as `args`.
    Shared,
    /// An exclusive reference, passed on as `args`.
    Exclusive,
}

/// The rule that a described enum breaks.
#[derive(Clone, Copy, PartialEq, Eq, Structural, Debug)]
pub enum ErrorKind {
    NotAnEnum,
    MissingHandlerAnnotation,
    DuplicateHandlerAnnotation,
    MissingArgumentType,
    DuplicateArgumentType,
    UnparseableArgumentType,
    ArmSynthesisFailure,
}

/// A fatal diagnostic: the rule broken, and the enum or variant that breaks it.
pub struct GenError {
    pub kind: ErrorKind,
    pub name: String,
}

impl GenError {
    pub open spec fn view(&self) -> (ErrorKind, Seq<char>) {
        (self.kind, self.name@)
    }
}

} // verus!
