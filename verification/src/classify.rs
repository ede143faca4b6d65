//! Field type classification.
//!
//! A declared type counts as `Option`-shaped only syntactically: it must be
//! a path type whose first segment is named exactly `Option` and whose
//! angle-bracketed arguments start with a type argument that is itself a
//! path type; the classification then carries that inner path's leading
//! identifier. Every other shape is plain — an alias of `Option` under
//! another name is not recognized, and absence of a match is a normal
//! outcome, not an error.

use vstd::prelude::*;
use crate::ast::{GenArgDecl, GenArgsDecl, TyDecl};
use crate::text::str_eq;

verus! {

/// The inner identifier of an `Option`-shaped type, or `None` for a
/// plain type.
pub open spec fn optional_inner(ty: TyDecl) -> Option<Seq<char>> {
    match ty {
        TyDecl::PathTy { segments } => {
            if segments@.len() == 0 {
                None
            } else if segments@[0].name@ != "Option"@ {
                None
            } else {
                match segments@[0].args {
                    GenArgsDecl::AngleArgs { args } => {
                        if args@.len() == 0 {
                            None
                        } else {
                            match args@[0] {
                                GenArgDecl::TyArg(TyDecl::PathTy { segments: inner }) => {
                                    if inner@.len() == 0 {
                                        None
                                    } else {
                                        Some(inner@[0].name@)
                                    }
                                },
                                _ => None,
                            }
                        }
                    },
                    GenArgsDecl::NoArgs => None,
                }
            }
        },
        TyDecl::OtherTy => None,
    }
}

/// Determines whether a declared type is `Option`-shaped, returning the
/// inner type's leading identifier if so.
pub fn is_type_optional(ty: &TyDecl) -> (r: Option<String>)
    ensures
        match r {
            Some(inner) => optional_inner(*ty) == Some(inner@),
            None => optional_inner(*ty) is None,
        },
{
    match ty {
        TyDecl::PathTy { segments } => {
            if segments.len() == 0 {
                return None;
            }
            if !str_eq(segments[0].name.as_str(), "Option") {
                return None;
            }
            match &segments[0].args {
                GenArgsDecl::AngleArgs { args } => {
                    if args.len() == 0 {
                        return None;
                    }
                    match &args[0] {
                        GenArgDecl::TyArg(TyDecl::PathTy { segments: inner }) => {
                            if inner.len() == 0 {
                                None
                            } else {
                                Some(inner[0].name.clone())
                            }
                        },
                        _ => None,
                    }
                },
                GenArgsDecl::NoArgs => None,
            }
        },
        TyDecl::OtherTy => None,
    }
}

} // verus!
