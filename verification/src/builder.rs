//! Builder synthesis.
//!
//! Given a named-field struct declaration, the synthesizer produces a plan
//! for the companion builder type: the builder's name, and one entry per
//! source field, in declaration order, carrying the field's name, its
//! declared type, and its classification. The plan determines the emitted
//! code completely: every builder field is stored behind one extra `Option`
//! around the declared type, so an `Option`-shaped field is stored
//! double-optional (unset, set to empty, set to a value); the setter of a
//! plain field takes the declared type and the setter of an `Option`-shaped
//! field takes the inner type; a fresh builder starts plain fields unset and
//! `Option`-shaped fields set to empty. Any other declaration shape is
//! rejected with the fixed message `Named structures only`.

use vstd::prelude::*;
use vstd::string::StringExecFns;
use crate::ast::{DeriveInputDecl, StructDecl};
use crate::classify::{is_type_optional, optional_inner};

verus! {

/// The classification of one source field.
pub enum FieldKind {
    /// Not `Option`-shaped: the setter takes the declared type, and the
    /// field must be set before the finalizer can succeed.
    Plain,
    /// `Option`-shaped: the setter takes the inner type, named by its
    /// leading identifier, and an unset field finalizes to empty.
    Optional { inner: String },
}

/// One builder field: the source field's name and declared type, and its
/// classification.
pub struct BuilderFieldPlan {
    pub name: String,
    pub ty: crate::ast::TyDecl,
    pub kind: FieldKind,
}

/// The synthesized builder: its type name and its fields, in the source
/// struct's declaration order.
pub struct BuilderPlan {
    pub builder_name: String,
    pub fields: Vec<BuilderFieldPlan>,
}

/// What a correct plan for `s` holds: the builder's name is the struct's
/// name with `Builder` appended, and each source field appears at its own
/// position, unchanged, with its classification.
pub open spec fn plan_matches(s: StructDecl, plan: BuilderPlan) -> bool {
    &&& plan.builder_name@ == s.name@ + "Builder"@
    &&& plan.fields@.len() == s.fields@.len()
    &&& forall|i: int|
        0 <= i < s.fields@.len() ==> {
            &&& (#[trigger] plan.fields@[i]).name == s.fields@[i].name
            &&& plan.fields@[i].ty == s.fields@[i].ty
            &&& match plan.fields@[i].kind {
                FieldKind::Plain => optional_inner(s.fields@[i].ty) is None,
                FieldKind::Optional { inner } => optional_inner(s.fields@[i].ty) == Some(inner@),
            }
        }
}

/// Synthesizes the builder plan for a named-field struct; every other
/// shape fails with the fixed message.
pub fn synthesize_builder(input: DeriveInputDecl) -> (r: Result<BuilderPlan, String>)
    ensures
        match input {
            DeriveInputDecl::NamedStruct(s) => r matches Ok(plan) && plan_matches(s, plan),
            DeriveInputDecl::OtherShape => r matches Err(m) && m@ == "Named structures only"@,
        },
{
    match input {
        DeriveInputDecl::NamedStruct(s) => {
            let ghost source = s;
            let StructDecl { name, fields } = s;
            let builder_name = name.concat("Builder");
            let mut rest = fields;
            let mut planned: Vec<BuilderFieldPlan> = Vec::new();
            let ghost total = source.fields@.len();
            while rest.len() > 0
                invariant
                    total == source.fields@.len(),
                    planned@.len() + rest@.len() == total,
                    rest@ == source.fields@.skip(planned@.len() as int),
                    forall|i: int|
                        0 <= i < planned@.len() ==> {
                            &&& (#[trigger] planned@[i]).name == source.fields@[i].name
                            &&& planned@[i].ty == source.fields@[i].ty
                            &&& match planned@[i].kind {
                                FieldKind::Plain => optional_inner(source.fields@[i].ty) is None,
                                FieldKind::Optional { inner } => optional_inner(
                                    source.fields@[i].ty,
                                ) == Some(inner@),
                            }
                        },
                decreases rest@.len(),
            {
                let ghost k = planned@.len() as int;
                let f = rest.remove(0);
                proof {
                    assert(f == source.fields@[k]);
                    assert(rest@ =~= source.fields@.skip(k + 1));
                }
                let kind = match is_type_optional(&f.ty) {
                    Some(inner) => FieldKind::Optional { inner },
                    None => FieldKind::Plain,
                };
                planned.push(BuilderFieldPlan { name: f.name, ty: f.ty, kind });
            }
            Ok(BuilderPlan { builder_name, fields: planned })
        },
        DeriveInputDecl::OtherShape => Err("Named structures only".to_owned()),
    }
}

} // verus!
