use builder_sorted::ast::ItemDecl;
use builder_sorted::enums::{check_enum_sorted, sorted_item, SortedOutcome};
use builder_sorted::order::find_unsorted_element;
use builder_sorted::text::{str_eq, str_lt};

fn names(vs: &[&str]) -> Vec<String> {
    vs.iter().map(|s| String::from(*s)).collect()
}

#[test]
fn alphabetical_enum_reports_nothing() {
    assert!(check_enum_sorted(&names(&["Fmt", "Io", "Redaction"])).is_none());
}

#[test]
fn single_and_empty_variant_lists_are_sorted() {
    assert!(check_enum_sorted(&names(&[])).is_none());
    assert!(check_enum_sorted(&names(&["Io"])).is_none());
    assert!(check_enum_sorted(&names(&["Io", "Io"])).is_none());
}

#[test]
fn first_inversion_is_reported() {
    let d = check_enum_sorted(&names(&["Io", "Fmt", "Redaction"])).unwrap();
    assert_eq!(d.index, 1);
    assert_eq!(d.target, 0);
    assert_eq!(d.message, "Fmt should sort before Io");
}

#[test]
fn target_is_first_greater_variant() {
    let d = check_enum_sorted(&names(&["Redaction", "Io", "Fmt"])).unwrap();
    assert_eq!(d.index, 1);
    assert_eq!(d.target, 0);
    assert_eq!(d.message, "Io should sort before Redaction");
}

#[test]
fn later_inversions_are_not_reported() {
    // Two inversions: only the first, at `Bravo` after `Delta`, is named.
    let d = check_enum_sorted(&names(&["Delta", "Bravo", "Echo", "Alpha"])).unwrap();
    assert_eq!(d.index, 1);
    assert_eq!(d.target, 0);
    assert_eq!(d.message, "Bravo should sort before Delta");
}

#[test]
fn sorted_item_accepts_sorted_enum() {
    let item = ItemDecl::EnumItem { variants: names(&["Fmt", "Io"]) };
    assert!(matches!(sorted_item(&item), SortedOutcome::Accepted));
}

#[test]
fn sorted_item_rejects_other_shapes() {
    match sorted_item(&ItemDecl::OtherItem) {
        SortedOutcome::WrongShape { message } => {
            assert_eq!(message, "expected enum or match expression");
        },
        _ => panic!("a non-enum item must be rejected"),
    }
}

#[test]
fn find_unsorted_element_locates_both_positions() {
    let (u, t) = find_unsorted_element(&names(&["Bravo", "Alpha"]));
    assert_eq!((u, t), (1, 0));
    let (u, t) = find_unsorted_element(&names(&["Alpha", "Charlie", "Bravo"]));
    assert_eq!((u, t), (2, 1));
    // On a sorted list both scans fall back: no inversion, and the first
    // entry greater than the one at position zero.
    let (u, t) = find_unsorted_element(&names(&["Alpha", "Bravo"]));
    assert_eq!((u, t), (0, 1));
}

#[test]
fn text_order_is_by_code_point() {
    assert!(str_lt("Fmt", "Io"));
    assert!(!str_lt("Io", "Fmt"));
    assert!(!str_lt("Io", "Io"));
    assert!(str_lt("Io", "Io2"));
    // An underscore sorts after upper-case letters and before lower-case.
    assert!(str_lt("Z", "_"));
    assert!(str_lt("_", "a"));
    assert!(str_eq("Io", "Io"));
    assert!(!str_eq("Io", "Io2"));
}

#[test]
fn sorted_item_reports_violation_with_diag() {
    let item = ItemDecl::EnumItem { variants: names(&["Redaction", "Io", "Fmt"]) };
    match sorted_item(&item) {
        SortedOutcome::Violation(d) => {
            assert_eq!(d.index, 1);
            assert_eq!(d.message, "Io should sort before Redaction");
        },
        _ => panic!("an unsorted enum must yield a violation"),
    }
}
