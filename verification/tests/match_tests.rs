use builder_sorted::ast::{AttrDecl, MatchDecl, PatDecl};
use builder_sorted::matches::{arm_key, check_fn, check_match, has_sorted_attribute};

fn names(vs: &[&str]) -> Vec<String> {
    vs.iter().map(|s| String::from(*s)).collect()
}

fn marker() -> AttrDecl {
    AttrDecl::PathAttr { segments: names(&["sorted"]) }
}

fn tuple_struct(segs: &[&str]) -> PatDecl {
    PatDecl::TupleStructPat { segments: names(segs) }
}

#[test]
fn arm_keys_by_pattern_shape() {
    assert_eq!(arm_key(&PatDecl::IdentPat { name: String::from("ident") }),
        Some(String::from("ident")));
    assert_eq!(arm_key(&PatDecl::PathPat { segments: names(&["Error", "Io"]) }),
        Some(String::from("Error::Io")));
    assert_eq!(arm_key(&PatDecl::StructPat { segments: names(&["E"]) }),
        Some(String::from("E")));
    assert_eq!(arm_key(&tuple_struct(&["Pat", "Path"])), Some(String::from("Pat::Path")));
    assert_eq!(arm_key(&PatDecl::WildPat), Some(String::from("_")));
    assert_eq!(arm_key(&PatDecl::OtherPat), None);
}

#[test]
fn marker_must_be_a_bare_single_segment_path() {
    assert_eq!(has_sorted_attribute(&vec![AttrDecl::OtherAttr, marker()]), Some(1));
    assert_eq!(has_sorted_attribute(&vec![AttrDecl::OtherAttr]), None);
    assert_eq!(
        has_sorted_attribute(&vec![AttrDecl::PathAttr { segments: names(&["sorted", "x"]) }]),
        None,
    );
    assert_eq!(has_sorted_attribute(&vec![]), None);
}

#[test]
fn unmarked_match_is_left_alone() {
    let mut m = MatchDecl {
        attrs: vec![AttrDecl::OtherAttr],
        arms: vec![tuple_struct(&["B"]), tuple_struct(&["A"])],
    };
    let diags = check_match(&mut m);
    assert!(diags.is_empty());
    assert_eq!(m.attrs.len(), 1);
}

#[test]
fn sorted_arms_only_lose_the_marker() {
    let mut m = MatchDecl {
        attrs: vec![AttrDecl::OtherAttr, marker()],
        arms: vec![tuple_struct(&["Pat", "Ident"]), tuple_struct(&["Pat", "Path"]),
            PatDecl::WildPat],
    };
    let diags = check_match(&mut m);
    assert!(diags.is_empty());
    assert_eq!(m.attrs.len(), 1);
    assert!(matches!(m.attrs[0], AttrDecl::OtherAttr));
}

#[test]
fn wildcard_sorts_before_lower_case_names() {
    let mut m = MatchDecl {
        attrs: vec![marker()],
        arms: vec![PatDecl::WildPat, PatDecl::IdentPat { name: String::from("ident") },
            PatDecl::PathPat { segments: names(&["path"]) }],
    };
    let diags = check_match(&mut m);
    assert!(diags.is_empty());
    assert!(m.attrs.is_empty());
}

#[test]
fn wildcard_sorts_after_upper_case_names() {
    let mut m = MatchDecl {
        attrs: vec![marker()],
        arms: vec![PatDecl::WildPat, PatDecl::IdentPat { name: String::from("Ident") }],
    };
    let diags = check_match(&mut m);
    assert_eq!(diags.len(), 1);
    assert_eq!(diags[0].arm, 1);
    assert_eq!(diags[0].message, "Ident should sort before _");
    assert!(m.attrs.is_empty());
}

#[test]
fn unsupported_arm_is_reported_and_skipped() {
    let mut m = MatchDecl {
        attrs: vec![marker()],
        arms: vec![tuple_struct(&["A"]), PatDecl::OtherPat, tuple_struct(&["B"])],
    };
    let diags = check_match(&mut m);
    assert_eq!(diags.len(), 1);
    assert_eq!(diags[0].arm, 1);
    assert_eq!(diags[0].message, "unsupported by #[sorted]");
    assert!(m.attrs.is_empty());
}

#[test]
fn remaining_arms_are_still_checked_around_unsupported_ones() {
    let mut m = MatchDecl {
        attrs: vec![marker()],
        arms: vec![tuple_struct(&["B"]), PatDecl::OtherPat, tuple_struct(&["A"])],
    };
    let diags = check_match(&mut m);
    assert_eq!(diags.len(), 2);
    assert_eq!(diags[0].arm, 1);
    assert_eq!(diags[0].message, "unsupported by #[sorted]");
    assert_eq!(diags[1].arm, 2);
    assert_eq!(diags[1].message, "A should sort before B");
    assert!(m.attrs.is_empty());
}

#[test]
fn ordering_diagnostic_is_anchored_at_the_offending_arm() {
    let mut m = MatchDecl {
        attrs: vec![marker()],
        arms: vec![PatDecl::PathPat { segments: names(&["Error", "Redaction"]) },
            PatDecl::PathPat { segments: names(&["Error", "Io"]) },
            PatDecl::PathPat { segments: names(&["Error", "Fmt"]) }],
    };
    let diags = check_match(&mut m);
    assert_eq!(diags.len(), 1);
    assert_eq!(diags[0].arm, 1);
    assert_eq!(diags[0].message, "Error::Io should sort before Error::Redaction");
}

#[test]
fn function_walk_tags_each_match() {
    let first = MatchDecl {
        attrs: vec![marker()],
        arms: vec![tuple_struct(&["B"]), tuple_struct(&["A"])],
    };
    let second = MatchDecl { attrs: vec![], arms: vec![tuple_struct(&["Z"])] };
    let third = MatchDecl {
        attrs: vec![marker()],
        arms: vec![tuple_struct(&["C"]), PatDecl::OtherPat],
    };
    let (out, diags) = check_fn(vec![first, second, third]);
    assert_eq!(out.len(), 3);
    assert!(out[0].attrs.is_empty());
    assert!(out[1].attrs.is_empty());
    assert!(out[2].attrs.is_empty());
    assert_eq!(diags.len(), 2);
    assert_eq!(diags[0].match_index, 0);
    assert_eq!(diags[0].arm, 1);
    assert_eq!(diags[0].message, "A should sort before B");
    assert_eq!(diags[1].match_index, 2);
    assert_eq!(diags[1].arm, 1);
    assert_eq!(diags[1].message, "unsupported by #[sorted]");
}

#[test]
fn empty_and_single_arm_matches_are_sorted() {
    let mut empty = MatchDecl { attrs: vec![marker()], arms: vec![] };
    assert!(check_match(&mut empty).is_empty());
    assert!(empty.attrs.is_empty());
    let mut single = MatchDecl { attrs: vec![marker()], arms: vec![tuple_struct(&["Z"])] };
    assert!(check_match(&mut single).is_empty());
    assert!(single.attrs.is_empty());
}
