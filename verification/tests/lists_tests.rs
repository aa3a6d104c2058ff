use eisenhower_matrix::lists::{add_item_to_list, remove_item, toggle_checked, update_item};

fn strings(v: &[&str]) -> Vec<String> {
    v.iter().map(|s| s.to_string()).collect()
}

#[test]
fn add_appends_unchecked_row() {
    let mut items = strings(&["a"]);
    let mut checked = vec![true];
    let save = add_item_to_list(&mut items, &mut checked, "b".to_string());
    assert!(save);
    assert_eq!(items, strings(&["a", "b"]));
    assert_eq!(checked, vec![true, false]);
}

#[test]
fn add_blank_text_is_kept_but_not_saved() {
    let mut items = Vec::new();
    let mut checked = Vec::new();
    let save = add_item_to_list(&mut items, &mut checked, "   ".to_string());
    assert!(!save);
    assert_eq!(items, strings(&["   "]));
    assert_eq!(checked, vec![false]);
}

#[test]
fn toggle_flips_one_row() {
    let mut checked = vec![false, true, false];
    assert!(toggle_checked(&mut checked, 1));
    assert_eq!(checked, vec![false, false, false]);
    assert!(toggle_checked(&mut checked, 2));
    assert_eq!(checked, vec![false, false, true]);
}

#[test]
fn toggle_outside_the_list_changes_nothing() {
    let mut checked = vec![false, true];
    assert!(!toggle_checked(&mut checked, 2));
    assert!(!toggle_checked(&mut checked, -1));
    assert!(!toggle_checked(&mut checked, i32::MIN));
    assert_eq!(checked, vec![false, true]);
}

#[test]
fn toggle_twice_restores() {
    let mut checked = vec![true, false, true];
    toggle_checked(&mut checked, 0);
    toggle_checked(&mut checked, 0);
    assert_eq!(checked, vec![true, false, true]);
}

#[test]
fn update_stores_trimmed_text() {
    let mut items = strings(&["a", "b"]);
    assert!(update_item(&mut items, 1, "  new text \n"));
    assert_eq!(items, strings(&["a", "new text"]));
}

#[test]
fn update_with_blank_text_or_bad_row_changes_nothing() {
    let mut items = strings(&["a", "b"]);
    assert!(!update_item(&mut items, 0, " \t"));
    assert!(!update_item(&mut items, 2, "x"));
    assert!(!update_item(&mut items, -3, "x"));
    assert_eq!(items, strings(&["a", "b"]));
}

#[test]
fn update_twice_is_update_once() {
    let mut once = strings(&["a", "b"]);
    update_item(&mut once, 0, " z ");
    let mut twice = once.clone();
    update_item(&mut twice, 0, " z ");
    assert_eq!(once, twice);
}

#[test]
fn remove_takes_out_the_row_from_both_lists() {
    let mut items = strings(&["a", "b", "c"]);
    let mut checked = vec![true, false, true];
    assert!(remove_item(&mut items, &mut checked, 1));
    assert_eq!(items, strings(&["a", "c"]));
    assert_eq!(checked, vec![true, true]);
}

#[test]
fn remove_beyond_the_marks_leaves_the_marks() {
    let mut items = strings(&["a", "b", "c"]);
    let mut checked = vec![true];
    assert!(remove_item(&mut items, &mut checked, 2));
    assert_eq!(items, strings(&["a", "b"]));
    assert_eq!(checked, vec![true]);
}

#[test]
fn remove_outside_the_list_changes_nothing() {
    let mut items = strings(&["a"]);
    let mut checked = vec![false];
    assert!(!remove_item(&mut items, &mut checked, 1));
    assert!(!remove_item(&mut items, &mut checked, -1));
    assert_eq!(items, strings(&["a"]));
    assert_eq!(checked, vec![false]);
}

#[test]
fn remove_undoes_add() {
    let mut items = strings(&["a", "b"]);
    let mut checked = vec![true, false];
    add_item_to_list(&mut items, &mut checked, "c".to_string());
    remove_item(&mut items, &mut checked, 2);
    assert_eq!(items, strings(&["a", "b"]));
    assert_eq!(checked, vec![true, false]);
}
