use builder_sorted::ast::{DeriveInputDecl, FieldDecl, GenArgDecl, GenArgsDecl, PathSegDecl,
    StructDecl, TyDecl};
use builder_sorted::builder::{synthesize_builder, BuilderPlan, FieldKind};
use builder_sorted::building::{BuilderState, FieldVal};
use builder_sorted::classify::is_type_optional;

fn seg(name: &str) -> PathSegDecl {
    PathSegDecl { name: String::from(name), args: GenArgsDecl::NoArgs }
}

fn plain_ty(name: &str) -> TyDecl {
    TyDecl::PathTy { segments: vec![seg(name)] }
}

fn option_of(inner: TyDecl) -> TyDecl {
    TyDecl::PathTy {
        segments: vec![PathSegDecl {
            name: String::from("Option"),
            args: GenArgsDecl::AngleArgs { args: vec![GenArgDecl::TyArg(inner)] },
        }],
    }
}

fn command_struct() -> StructDecl {
    StructDecl {
        name: String::from("Command"),
        fields: vec![
            FieldDecl { name: String::from("executable"), ty: plain_ty("String") },
            FieldDecl { name: String::from("args"), ty: plain_ty("Vec") },
            FieldDecl { name: String::from("current_dir"), ty: option_of(plain_ty("String")) },
        ],
    }
}

fn command_plan() -> BuilderPlan {
    synthesize_builder(DeriveInputDecl::NamedStruct(command_struct())).unwrap()
}

#[test]
fn builder_mirrors_every_field() {
    let plan = command_plan();
    assert_eq!(plan.builder_name, "CommandBuilder");
    assert_eq!(plan.fields.len(), 3);
    assert_eq!(plan.fields[0].name, "executable");
    assert_eq!(plan.fields[1].name, "args");
    assert_eq!(plan.fields[2].name, "current_dir");
    assert!(matches!(plan.fields[0].kind, FieldKind::Plain));
    assert!(matches!(plan.fields[1].kind, FieldKind::Plain));
    match &plan.fields[2].kind {
        FieldKind::Optional { inner } => assert_eq!(inner, "String"),
        FieldKind::Plain => panic!("current_dir must classify as optional"),
    }
}

#[test]
fn non_struct_is_rejected() {
    let r = synthesize_builder(DeriveInputDecl::OtherShape);
    assert_eq!(r.err().unwrap(), "Named structures only");
}

#[test]
fn option_classification_is_purely_syntactic() {
    assert_eq!(is_type_optional(&option_of(plain_ty("String"))), Some(String::from("String")));
    assert_eq!(is_type_optional(&plain_ty("String")), None);
    assert_eq!(is_type_optional(&TyDecl::OtherTy), None);
    // A fully qualified path does not start with the literal `Option`.
    let qualified = TyDecl::PathTy {
        segments: vec![seg("std"), seg("option"), seg("Option")],
    };
    assert_eq!(is_type_optional(&qualified), None);
    // `Option` without angle-bracketed arguments stays plain.
    assert_eq!(is_type_optional(&plain_ty("Option")), None);
    // A non-path inner argument stays plain.
    let weird = TyDecl::PathTy {
        segments: vec![PathSegDecl {
            name: String::from("Option"),
            args: GenArgsDecl::AngleArgs { args: vec![GenArgDecl::TyArg(TyDecl::OtherTy)] },
        }],
    };
    assert_eq!(is_type_optional(&weird), None);
}

#[test]
fn optional_inner_takes_leading_identifier() {
    let inner = TyDecl::PathTy { segments: vec![seg("std"), seg("string"), seg("String")] };
    assert_eq!(is_type_optional(&option_of(inner)), Some(String::from("std")));
}

#[test]
fn all_setters_then_build_in_any_order() {
    let plan = command_plan();
    let mut b = BuilderState::new_for(&plan);
    b.set_field(&plan, 2, 30);
    b.set_field(&plan, 0, 10);
    b.set_field(&plan, 1, 20);
    let vals = b.build(&plan).unwrap();
    assert_eq!(vals.len(), 3);
    assert!(matches!(vals[0], FieldVal::PlainVal { v: 10 }));
    assert!(matches!(vals[1], FieldVal::PlainVal { v: 20 }));
    assert!(matches!(vals[2], FieldVal::OptVal { v: Some(30) }));
}

#[test]
fn unset_optional_field_builds_to_empty() {
    let plan = command_plan();
    let mut b = BuilderState::new_for(&plan);
    b.set_field(&plan, 0, 1);
    b.set_field(&plan, 1, 2);
    let vals = b.build(&plan).unwrap();
    assert!(matches!(vals[2], FieldVal::OptVal { v: None }));
}

#[test]
fn unset_plain_field_fails_naming_it() {
    let plan = command_plan();
    let mut b = BuilderState::new_for(&plan);
    b.set_field(&plan, 0, 1);
    b.set_field(&plan, 2, 3);
    let err = b.build(&plan).unwrap_err();
    assert_eq!(err, "Field args must be set!");
}

#[test]
fn first_unset_field_is_named() {
    let plan = command_plan();
    let mut b = BuilderState::new_for(&plan);
    let err = b.build(&plan).unwrap_err();
    assert_eq!(err, "Field executable must be set!");
}

#[test]
fn last_setter_write_wins() {
    let plan = command_plan();
    let mut b = BuilderState::new_for(&plan);
    b.set_field(&plan, 0, 1);
    b.set_field(&plan, 1, 2);
    b.set_field(&plan, 0, 7);
    let vals = b.build(&plan).unwrap();
    assert!(matches!(vals[0], FieldVal::PlainVal { v: 7 }));
}

#[test]
fn finalizer_consumes_the_builder() {
    let plan = command_plan();
    let mut b = BuilderState::new_for(&plan);
    b.set_field(&plan, 0, 1);
    b.set_field(&plan, 1, 2);
    b.set_field(&plan, 2, 3);
    assert!(b.build(&plan).is_ok());
    let err = b.build(&plan).unwrap_err();
    assert_eq!(err, "Field executable must be set!");
}

#[test]
fn all_optional_struct_builds_from_nothing() {
    let s = StructDecl {
        name: String::from("Config"),
        fields: vec![
            FieldDecl { name: String::from("dir"), ty: option_of(plain_ty("String")) },
            FieldDecl { name: String::from("env"), ty: option_of(plain_ty("String")) },
        ],
    };
    let plan = synthesize_builder(DeriveInputDecl::NamedStruct(s)).unwrap();
    let mut b = BuilderState::new_for(&plan);
    let vals = b.build(&plan).unwrap();
    assert!(matches!(vals[0], FieldVal::OptVal { v: None }));
    assert!(matches!(vals[1], FieldVal::OptVal { v: None }));
}

#[test]
fn explicit_empty_differs_from_unset_only_in_provenance() {
    // Setting an optional field stores an inner value; a field never set
    // finalizes to the empty state.
    let plan = command_plan();
    let mut b = BuilderState::new_for(&plan);
    b.set_field(&plan, 0, 1);
    b.set_field(&plan, 1, 2);
    b.set_field(&plan, 2, 9);
    let vals = b.build(&plan).unwrap();
    assert!(matches!(vals[2], FieldVal::OptVal { v: Some(9) }));
}
