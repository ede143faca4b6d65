//! Compile-time helpers for builder synthesis and sorted-order checking,
//! expressed over a small syntax-tree model.
//!
//! The crate has two independent pipelines. The builder pipeline accepts a
//! named-field struct declaration, classifies each field's declared type as
//! plain or `Option`-shaped, and synthesizes a plan for a companion builder
//! type (fields, setters, defaults, and a finalizer). The sorted-order
//! pipeline checks that enum variants, and the arms of match expressions
//! carrying a `sorted` marker attribute, are declared in ascending textual
//! order, reporting the first violation.
//!
//! All logic works on the plain declaration model in [`ast`]; a host-specific
//! front end is expected to parse source text into that model and to render
//! the resulting plans and diagnostics back out.

pub mod ast;
pub mod builder;
pub mod building;
pub mod classify;
pub mod enums;
pub mod matches;
pub mod order;
pub mod text;
