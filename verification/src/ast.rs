//! The declaration model the two pipelines work on.
//!
//! A host front end parses source text and hands these plain values in:
//! types as paths of segments with optional angle-bracketed arguments,
//! struct and enum declarations by name, and match expressions as their
//! attributes and arm patterns. Shapes the pipelines never inspect are
//! collapsed into the `Other` variants.

use vstd::prelude::*;

verus! {

/// A declared type: a path of segments, or any other type shape.
pub enum TyDecl {
    PathTy { segments: Vec<PathSegDecl> },
    OtherTy,
}

/// One path segment: its identifier and its generic arguments.
pub struct PathSegDecl {
    pub name: String,
    pub args: GenArgsDecl,
}

/// The generic arguments of a path segment.
pub enum GenArgsDecl {
    NoArgs,
    AngleArgs { args: Vec<GenArgDecl> },
}

/// One generic argument: a type, or any other argument kind.
pub enum GenArgDecl {
    TyArg(TyDecl),
    OtherArg,
}

/// One named struct field: its identifier and declared type.
pub struct FieldDecl {
    pub name: String,
    pub ty: TyDecl,
}

/// A struct declaration with exclusively named fields, in declared order.
pub struct StructDecl {
    pub name: String,
    pub fields: Vec<FieldDecl>,
}

/// The input of the builder pipeline: a named-field struct, or any
/// other declaration shape, which the pipeline rejects.
pub enum DeriveInputDecl {
    NamedStruct(StructDecl),
    OtherShape,
}

/// The input of the enum checker: an enum's variant names in declared
/// order, or any other item shape, which the checker rejects.
pub enum ItemDecl {
    EnumItem { variants: Vec<String> },
    OtherItem,
}

/// One attribute on a match expression: a bare path, or any other form.
pub enum AttrDecl {
    PathAttr { segments: Vec<String> },
    OtherAttr,
}

/// One match arm pattern, by the shapes the checker can compare.
pub enum PatDecl {
    IdentPat { name: String },
    PathPat { segments: Vec<String> },
    StructPat { segments: Vec<String> },
    TupleStructPat { segments: Vec<String> },
    WildPat,
    OtherPat,
}

/// A match expression: its attributes and its arm patterns, in order.
pub struct MatchDecl {
    pub attrs: Vec<AttrDecl>,
    pub arms: Vec<PatDecl>,
}

} // verus!
