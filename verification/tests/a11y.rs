use tezzera::a11y::focus::FocusManager;
use tezzera::a11y::node::{escape_json, A11yNode};
use tezzera::a11y::role::Role;
use tezzera::a11y::tree::A11yTree;

fn make_tree_with_two_buttons() -> A11yTree {
    let mut tree = A11yTree::new();
    tree.add(A11yNode::new(Role::Button, "First").focusable(true));
    tree.add(A11yNode::new(Role::Button, "Second").focusable(true));
    tree
}

// ── roles ────────────────────────────────────────────────────────────────

#[test]
fn role_button_aria_role() {
    assert_eq!(Role::Button.aria_role(), "button");
}

#[test]
fn role_heading_aria_role() {
    assert_eq!(Role::Heading { level: 2 }.aria_role(), "heading");
}

#[test]
fn role_heading_aria_level() {
    assert_eq!(Role::Heading { level: 3 }.aria_level(), Some(3));
}

#[test]
fn role_slider_aria_role() {
    assert_eq!(Role::Slider.aria_role(), "slider");
}

#[test]
fn role_none_has_no_level() {
    assert_eq!(Role::NoRole.aria_level(), Option::<u8>::None);
}

#[test]
fn role_eq() {
    assert_eq!(Role::Button, Role::Button);
    assert_ne!(Role::Button, Role::Link);
    assert_eq!(Role::Heading { level: 1 }, Role::Heading { level: 1 });
    assert_ne!(Role::Heading { level: 1 }, Role::Heading { level: 2 });
}

#[test]
fn role_clone() {
    let r = Role::Heading { level: 4 };
    let r2 = r.clone();
    assert_eq!(r, r2);
}

#[test]
fn role_strings_of_every_role() {
    assert_eq!(Role::TextInput.aria_role(), "textbox");
    assert_eq!(Role::Image.aria_role(), "img");
    assert_eq!(Role::ListItem.aria_role(), "listitem");
    assert_eq!(Role::ProgressBar.aria_role(), "progressbar");
    assert_eq!(Role::NoRole.aria_role(), "none");
    assert_eq!(Role::Button.aria_level(), None);
}

// ── focus ────────────────────────────────────────────────────────────────

#[test]
fn focus_manager_new_no_focus() {
    let fm = FocusManager::new();
    assert_eq!(fm.focused_id(), None);
}

#[test]
fn focus_next_focuses_first() {
    let mut tree = make_tree_with_two_buttons();
    let mut fm = FocusManager::new();
    fm.focus_next(&mut tree);
    assert_eq!(fm.focused_id(), Some(1));
    assert!(tree.get(1).unwrap().focused);
}

#[test]
fn focus_next_wraps_around() {
    let mut tree = make_tree_with_two_buttons();
    let mut fm = FocusManager::new();
    fm.focus_next(&mut tree);
    fm.focus_next(&mut tree);
    fm.focus_next(&mut tree);
    assert_eq!(fm.focused_id(), Some(1));
}

#[test]
fn focus_prev_wraps_around() {
    let mut tree = make_tree_with_two_buttons();
    let mut fm = FocusManager::new();
    fm.focus_prev(&mut tree);
    assert_eq!(fm.focused_id(), Some(2));
    fm.focus_prev(&mut tree);
    assert_eq!(fm.focused_id(), Some(1));
    fm.focus_prev(&mut tree);
    assert_eq!(fm.focused_id(), Some(2));
}

#[test]
fn focus_specific_node() {
    let mut tree = make_tree_with_two_buttons();
    let mut fm = FocusManager::new();
    fm.focus(&mut tree, 2);
    assert_eq!(fm.focused_id(), Some(2));
    assert!(tree.get(2).unwrap().focused);
    assert!(!tree.get(1).unwrap().focused);
}

#[test]
fn focus_blur_clears() {
    let mut tree = make_tree_with_two_buttons();
    let mut fm = FocusManager::new();
    fm.focus_next(&mut tree);
    fm.blur(&mut tree);
    assert_eq!(fm.focused_id(), None);
    assert!(!tree.get(1).unwrap().focused);
}

#[test]
fn focus_skips_disabled() {
    let mut tree = A11yTree::new();
    tree.add(A11yNode::new(Role::Button, "Enabled").focusable(true));
    tree.add(
        A11yNode::new(Role::Button, "Disabled")
            .focusable(true)
            .disabled(true),
    );
    let mut fm = FocusManager::new();
    fm.focus_next(&mut tree);
    assert_eq!(fm.focused_id(), Some(1));
    fm.focus_next(&mut tree);
    assert_eq!(fm.focused_id(), Some(1));
}

#[test]
fn focus_empty_tree_no_panic() {
    let mut tree = A11yTree::new();
    let mut fm = FocusManager::new();
    fm.focus_next(&mut tree);
    assert_eq!(fm.focused_id(), None);
    fm.focus_prev(&mut tree);
    assert_eq!(fm.focused_id(), None);
}

#[test]
fn focus_marks_node_focused_true() {
    let mut tree = A11yTree::new();
    let id = tree.add(A11yNode::new(Role::TextInput, "Name").focusable(true));
    let mut fm = FocusManager::new();
    fm.focus(&mut tree, id);
    assert!(tree.get(id).unwrap().focused);
}

#[test]
fn focus_prev_after_next_returns_to_start() {
    let mut tree = A11yTree::new();
    for i in 0..4 {
        tree.add(A11yNode::new(Role::Button, &format!("b{i}")).focusable(i != 2));
    }
    let mut fm = FocusManager::new();
    fm.focus(&mut tree, 4);
    fm.focus_next(&mut tree);
    assert_eq!(fm.focused_id(), Some(1));
    fm.focus_prev(&mut tree);
    assert_eq!(fm.focused_id(), Some(4));
    assert!(tree.get(4).unwrap().focused);
    assert!(!tree.get(1).unwrap().focused);
}

#[test]
fn focus_next_from_unknown_id_goes_to_first() {
    let mut tree = make_tree_with_two_buttons();
    let mut fm = FocusManager::new();
    fm.focus(&mut tree, 99);
    assert_eq!(fm.focused_id(), Some(99));
    fm.focus_next(&mut tree);
    assert_eq!(fm.focused_id(), Some(1));
    fm.focus(&mut tree, 42);
    fm.focus_prev(&mut tree);
    assert_eq!(fm.focused_id(), Some(1));
}

// ── nodes ────────────────────────────────────────────────────────────────

#[test]
fn node_new_defaults() {
    let n = A11yNode::new(Role::Button, "Click me");
    assert_eq!(n.id, 0);
    assert_eq!(n.label, "Click me");
    assert!(!n.focusable);
    assert!(!n.focused);
    assert!(!n.disabled);
    assert!(n.description.is_none());
    assert!(n.value.is_none());
    assert!(n.checked.is_none());
    assert!(n.children.is_empty());
}

#[test]
fn node_focusable_setter() {
    let n = A11yNode::new(Role::Button, "OK").focusable(true);
    assert!(n.focusable);
}

#[test]
fn node_disabled_setter() {
    let n = A11yNode::new(Role::Button, "Disabled").disabled(true);
    assert!(n.disabled);
}

#[test]
fn node_value_setter() {
    let n = A11yNode::new(Role::Slider, "Volume").value(
        &format!("{}", 0.5f32),
        &format!("{}", 0.0f32),
        &format!("{}", 1.0f32),
    );
    assert_eq!(n.value, Some(format!("{}", 0.5f32)));
    assert_eq!(n.value_min, Some(format!("{}", 0.0f32)));
    assert_eq!(n.value_max, Some(format!("{}", 1.0f32)));
}

#[test]
fn node_checked_setter() {
    let n = A11yNode::new(Role::Checkbox, "Accept").checked(true);
    assert_eq!(n.checked, Some(true));
}

#[test]
fn node_to_json_contains_role() {
    let n = A11yNode::new(Role::Button, "Submit");
    let json = n.to_json();
    assert!(json.contains(r#""role":"button""#));
}

#[test]
fn node_to_json_contains_label() {
    let n = A11yNode::new(Role::Button, "Submit");
    let json = n.to_json();
    assert!(json.contains(r#""aria-label":"Submit""#));
}

#[test]
fn node_to_json_escape_quotes() {
    let n = A11yNode::new(Role::Button, r#"Say "hello""#);
    let json = n.to_json();
    assert!(json.contains(r#"Say \"hello\""#));
}

#[test]
fn node_to_json_full_object() {
    let n = A11yNode::new(Role::Heading { level: 2 }, "Title")
        .description("Main\nsection")
        .value("0.5", "0", "1")
        .checked(false)
        .disabled(true);
    assert_eq!(
        n.to_json(),
        r#"{"id":0,"role":"heading","aria-label":"Title","focusable":false,"description":"Main\nsection","aria-valuenow":0.5,"aria-valuemin":0,"aria-valuemax":1,"aria-checked":false,"aria-level":2,"aria-disabled":true}"#
    );
}

#[test]
fn node_to_json_default_range_bounds() {
    let mut n = A11yNode::new(Role::ProgressBar, "Load");
    n.value = Some("7".to_string());
    assert_eq!(
        n.to_json(),
        r#"{"id":0,"role":"progressbar","aria-label":"Load","focusable":false,"aria-valuenow":7,"aria-valuemin":0,"aria-valuemax":1}"#
    );
}

#[test]
fn escape_json_escapes_backslash_quote_newline() {
    assert_eq!(escape_json("a\\b\"c\nd"), "a\\\\b\\\"c\\nd");
    assert_eq!(escape_json("plain"), "plain");
}

#[test]
fn node_child_appends() {
    let n = A11yNode::new(Role::List, "L").child(3).child(5);
    assert_eq!(n.children, vec![3, 5]);
}

// ── tree ─────────────────────────────────────────────────────────────────

#[test]
fn tree_new_empty() {
    let tree = A11yTree::new();
    assert!(tree.is_empty());
    assert_eq!(tree.len(), 0);
}

#[test]
fn tree_add_assigns_id() {
    let mut tree = A11yTree::new();
    let id = tree.add(A11yNode::new(Role::Button, "OK"));
    assert_eq!(id, 1);
    assert_eq!(tree.get(id).unwrap().id, 1);
}

#[test]
fn tree_add_increments_ids() {
    let mut tree = A11yTree::new();
    let id1 = tree.add(A11yNode::new(Role::Button, "A"));
    let id2 = tree.add(A11yNode::new(Role::Button, "B"));
    assert_eq!(id1, 1);
    assert_eq!(id2, 2);
}

#[test]
fn tree_add_child() {
    let mut tree = A11yTree::new();
    let parent_id = tree.add(A11yNode::new(Role::List, "Items"));
    let child_id = tree.add_child(parent_id, A11yNode::new(Role::ListItem, "Item 1"));
    let parent = tree.get(parent_id).unwrap();
    assert!(parent.children.contains(&child_id));
    assert_eq!(tree.get(child_id).unwrap().id, child_id);
}

#[test]
fn tree_get_returns_node() {
    let mut tree = A11yTree::new();
    let id = tree.add(A11yNode::new(Role::Link, "Home"));
    let node = tree.get(id).unwrap();
    assert_eq!(node.label, "Home");
}

#[test]
fn tree_focusable_ids_filters() {
    let mut tree = A11yTree::new();
    tree.add(A11yNode::new(Role::Image, "Logo"));
    let btn_id = tree.add(A11yNode::new(Role::Button, "Submit").focusable(true));
    let inp_id = tree.add(A11yNode::new(Role::TextInput, "Email").focusable(true));
    let ids = tree.focusable_ids();
    assert_eq!(ids, vec![btn_id, inp_id]);
}

#[test]
fn tree_focusable_ids_excludes_disabled() {
    let mut tree = A11yTree::new();
    let btn_id = tree.add(A11yNode::new(Role::Button, "Submit").focusable(true));
    tree.add(
        A11yNode::new(Role::Button, "Disabled")
            .focusable(true)
            .disabled(true),
    );
    let ids = tree.focusable_ids();
    assert_eq!(ids, vec![btn_id]);
}

#[test]
fn tree_clear_resets() {
    let mut tree = A11yTree::new();
    tree.add(A11yNode::new(Role::Button, "X"));
    tree.clear();
    assert!(tree.is_empty());
    let id = tree.add(A11yNode::new(Role::Button, "Y"));
    assert_eq!(id, 1);
}

#[test]
fn tree_to_aria_json() {
    let mut tree = A11yTree::new();
    tree.add(A11yNode::new(Role::Button, "Click"));
    let json = tree.to_aria_json();
    assert!(json.starts_with('['));
    assert!(json.ends_with(']'));
    assert!(json.contains("button"));
}

#[test]
fn tree_to_aria_json_joins_in_id_order() {
    let mut tree = A11yTree::new();
    assert_eq!(tree.to_aria_json(), "[]");
    tree.add(A11yNode::new(Role::Button, "A"));
    tree.add(A11yNode::new(Role::Link, "B").focusable(true));
    assert_eq!(
        tree.to_aria_json(),
        r#"[{"id":1,"role":"button","aria-label":"A","focusable":false},{"id":2,"role":"link","aria-label":"B","focusable":true}]"#
    );
}

#[test]
fn tree_focusable_ids_sorted_after_id_edit() {
    let mut tree = A11yTree::new();
    tree.add(A11yNode::new(Role::Button, "A").focusable(true));
    tree.add(A11yNode::new(Role::Button, "B").focusable(true));
    tree.get_mut(1).unwrap().id = 9;
    assert_eq!(tree.focusable_ids(), vec![2, 9]);
}

#[test]
fn tree_add_child_to_missing_parent() {
    let mut tree = A11yTree::new();
    let id = tree.add_child(7, A11yNode::new(Role::ListItem, "orphan"));
    assert_eq!(id, 1);
    assert_eq!(tree.len(), 1);
    assert!(tree.get(1).unwrap().children.is_empty());
}

fn focus_flags(tree: &A11yTree, n: u64) -> Vec<bool> {
    (1..=n).map(|id| tree.get(id).unwrap().focused).collect()
}

#[test]
fn focus_flags_restored_after_next_then_prev() {
    let mut tree = A11yTree::new();
    for label in ["a", "b", "c"] {
        tree.add(A11yNode::new(Role::Button, label).focusable(true));
    }
    let mut fm = FocusManager::new();
    fm.focus_next(&mut tree);
    fm.focus_next(&mut tree);
    assert_eq!(fm.focused_id(), Some(2));
    let before = focus_flags(&tree, 3);
    assert_eq!(before, vec![false, true, false]);
    fm.focus_next(&mut tree);
    assert_eq!(focus_flags(&tree, 3), vec![false, false, true]);
    fm.focus_prev(&mut tree);
    assert_eq!(fm.focused_id(), Some(2));
    assert_eq!(focus_flags(&tree, 3), before);
    fm.focus_prev(&mut tree);
    fm.focus_next(&mut tree);
    assert_eq!(focus_flags(&tree, 3), before);
}
