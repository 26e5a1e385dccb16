use todo_rs::ctrlc::{arm, poll, CancelFlag};
use todo_rs::items::{list_delete, list_down, list_drag_down, list_drag_up, list_first,
    list_last, list_transfer, list_up, parse_item, parse_items, render_item, render_items,
    Status};

fn strings(items: &[&str]) -> Vec<String> {
    items.iter().map(|s| s.to_string()).collect()
}

#[test]
fn parse_todo_line() {
    assert_eq!(parse_item("TODO: buy milk"), Some((Status::Todo, "buy milk".to_string())));
}

#[test]
fn parse_done_line() {
    assert_eq!(parse_item("DONE: pay rent"), Some((Status::Done, "pay rent".to_string())));
}

#[test]
fn parse_empty_title() {
    assert_eq!(parse_item("TODO: "), Some((Status::Todo, String::new())));
}

#[test]
fn parse_rejects_malformed_lines() {
    assert_eq!(parse_item(""), None);
    assert_eq!(parse_item("TODO:"), None);
    assert_eq!(parse_item("TODO:x"), None);
    assert_eq!(parse_item("todo: x"), None);
    assert_eq!(parse_item("LATER: x"), None);
}

#[test]
fn load_two_line_file_keeps_titles_and_order() {
    let lines = strings(&["TODO: buy milk", "DONE: pay rent"]);
    let (todos, dones) = parse_items(&lines).unwrap();
    assert_eq!(todos, strings(&["buy milk"]));
    assert_eq!(dones, strings(&["pay rent"]));
}

#[test]
fn load_reports_first_malformed_line_index() {
    let lines = strings(&["TODO: a", "garbage", "DONE: b"]);
    assert_eq!(parse_items(&lines), Err(1));
}

#[test]
fn save_writes_todos_then_dones() {
    let lines = render_items(&strings(&["a", "b"]), &strings(&["c"]));
    assert_eq!(lines, strings(&["TODO: a", "TODO: b", "DONE: c"]));
}

#[test]
fn item_line_round_trip() {
    let line = render_item(Status::Todo, "weird: title TODO: x");
    assert_eq!(parse_item(&line), Some((Status::Todo, "weird: title TODO: x".to_string())));
    let line = render_item(Status::Done, "");
    assert_eq!(parse_item(&line), Some((Status::Done, String::new())));
}

#[test]
fn status_toggles_between_panels() {
    assert_eq!(Status::Todo.toggle(), Status::Done);
    assert_eq!(Status::Done.toggle(), Status::Todo);
}

#[test]
fn selection_moves_up_and_down_within_bounds() {
    let list = strings(&["a", "b", "c"]);
    let mut curr = 1;
    list_up(&mut curr);
    assert_eq!(curr, 0);
    list_up(&mut curr);
    assert_eq!(curr, 0);
    list_down(&list, &mut curr);
    assert_eq!(curr, 1);
    list_down(&list, &mut curr);
    assert_eq!(curr, 2);
    list_down(&list, &mut curr);
    assert_eq!(curr, 2);
}

#[test]
fn selection_jumps_to_first_and_last() {
    let list = strings(&["a", "b", "c"]);
    let mut curr = 1;
    list_first(&mut curr);
    assert_eq!(curr, 0);
    list_last(&list, &mut curr);
    assert_eq!(curr, 2);
}

#[test]
fn drag_swaps_with_neighbour_and_follows() {
    let mut list = strings(&["a", "b", "c"]);
    let mut curr = 1;
    list_drag_up(&mut list, &mut curr);
    assert_eq!(list, strings(&["b", "a", "c"]));
    assert_eq!(curr, 0);
    list_drag_up(&mut list, &mut curr);
    assert_eq!(list, strings(&["b", "a", "c"]));
    list_drag_down(&mut list, &mut curr);
    assert_eq!(list, strings(&["a", "b", "c"]));
    assert_eq!(curr, 1);
}

#[test]
fn delete_removes_selected_and_clamps_selection() {
    let mut list = strings(&["a", "b"]);
    let mut curr = 1;
    list_delete(&mut list, &mut curr);
    assert_eq!(list, strings(&["a"]));
    assert_eq!(curr, 0);
    list_delete(&mut list, &mut curr);
    assert_eq!(list, Vec::<String>::new());
    assert_eq!(curr, 0);
    list_delete(&mut list, &mut curr);
    assert_eq!(list, Vec::<String>::new());
}

#[test]
fn transfer_moves_selected_to_other_list() {
    let mut todos = strings(&["a", "b"]);
    let mut dones = strings(&["x"]);
    let mut curr = 1;
    list_transfer(&mut dones, &mut todos, &mut curr);
    assert_eq!(todos, strings(&["a"]));
    assert_eq!(dones, strings(&["x", "b"]));
    assert_eq!(curr, 0);
}

#[test]
fn cancellation_is_taken_once() {
    let mut flag = CancelFlag::default();
    assert!(!poll(&mut flag));
    arm(&mut flag);
    assert!(poll(&mut flag));
    assert!(!poll(&mut flag));
}
