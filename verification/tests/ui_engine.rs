use todo_rs::ui::{LayoutKind, Ui, Vec2, HIGHLIGHT_PAIR, KEY_BACKSPACE, KEY_DC, KEY_LEFT,
    KEY_RIGHT, REGULAR_PAIR};

fn chars(s: &str) -> Vec<char> {
    s.chars().collect()
}

#[test]
fn vec2_add_is_componentwise() {
    let r = Vec2::new(2, 3).add(Vec2::new(40, -5));
    assert_eq!(r.x, 42);
    assert_eq!(r.y, -2);
}

#[test]
fn vec2_mul_is_componentwise() {
    let r = Vec2::new(2, 3).mul(Vec2::new(4, 5));
    assert_eq!(r.x, 8);
    assert_eq!(r.y, 15);
}

#[test]
fn vertical_layout_accumulates_max_width_and_row_count() {
    let mut ui = Ui::default();
    ui.begin(Vec2::new(0, 0), LayoutKind::Vert);
    ui.label_fixed_width("aaa", 3, REGULAR_PAIR);
    ui.label_fixed_width("bbbbbbb", 7, REGULAR_PAIR);
    ui.label_fixed_width("ccccc", 5, REGULAR_PAIR);
    assert_eq!(ui.layouts[0].size.x, 7);
    assert_eq!(ui.layouts[0].size.y, 3);
    ui.end();
    assert!(ui.layouts.is_empty());
}

#[test]
fn horizontal_layout_accumulates_width_sum_and_one_row() {
    let mut ui = Ui::default();
    ui.begin(Vec2::new(0, 0), LayoutKind::Horz);
    ui.label_fixed_width("aaa", 3, REGULAR_PAIR);
    ui.label_fixed_width("bbbbbbb", 7, REGULAR_PAIR);
    ui.label_fixed_width("ccccc", 5, REGULAR_PAIR);
    assert_eq!(ui.layouts[0].size.x, 15);
    assert_eq!(ui.layouts[0].size.y, 1);
    ui.end();
}

#[test]
fn nested_layout_starts_at_parent_available_position() {
    let mut ui = Ui::default();
    ui.begin(Vec2::new(0, 0), LayoutKind::Vert);
    ui.label_fixed_width("header", 10, REGULAR_PAIR);
    ui.begin_layout(LayoutKind::Horz);
    assert_eq!(ui.layouts[1].pos.x, 0);
    assert_eq!(ui.layouts[1].pos.y, 1);
    ui.label_fixed_width("left", 4, REGULAR_PAIR);
    // what the parent accumulates afterwards does not move the child
    assert_eq!(ui.layouts[1].pos.x, 0);
    assert_eq!(ui.layouts[1].pos.y, 1);
    ui.end_layout();
    ui.end();
}

#[test]
fn end_layout_folds_child_size_into_parent() {
    let mut ui = Ui::default();
    ui.begin(Vec2::new(0, 0), LayoutKind::Vert);
    ui.begin_layout(LayoutKind::Horz);
    ui.label_fixed_width("ab", 2, REGULAR_PAIR);
    ui.label_fixed_width("cd", 2, REGULAR_PAIR);
    ui.end_layout();
    assert_eq!(ui.layouts[0].size.x, 4);
    assert_eq!(ui.layouts[0].size.y, 1);
    ui.end();
}

#[test]
fn two_fixed_labels_paint_rows_zero_and_one() {
    let mut ui = Ui::default();
    ui.begin(Vec2::new(0, 0), LayoutKind::Vert);
    ui.label_fixed_width("0123456789", 10, REGULAR_PAIR);
    ui.label_fixed_width("9876543210", 10, REGULAR_PAIR);
    assert_eq!(ui.layouts[0].size.x, 10);
    assert_eq!(ui.layouts[0].size.y, 2);
    ui.end();
    assert_eq!(ui.cmds.len(), 2);
    assert_eq!(ui.cmds[0].pos.x, 0);
    assert_eq!(ui.cmds[0].pos.y, 0);
    assert_eq!(ui.cmds[0].text, chars("0123456789"));
    assert_eq!(ui.cmds[1].pos.x, 0);
    assert_eq!(ui.cmds[1].pos.y, 1);
    assert_eq!(ui.cmds[1].text, chars("9876543210"));
}

#[test]
fn begin_discards_previous_frame_paints() {
    let mut ui = Ui::default();
    ui.begin(Vec2::new(0, 0), LayoutKind::Vert);
    ui.label_fixed_width("old", 3, REGULAR_PAIR);
    ui.end();
    ui.begin(Vec2::new(0, 0), LayoutKind::Vert);
    assert!(ui.cmds.is_empty());
    ui.end();
}

#[test]
fn label_uses_text_length_as_width() {
    let mut ui = Ui::default();
    ui.begin(Vec2::new(0, 0), LayoutKind::Horz);
    ui.label("abc", REGULAR_PAIR);
    assert_eq!(ui.layouts[0].size.x, 3);
    assert_eq!(ui.layouts[0].size.y, 1);
    ui.end();
}

fn edit_once(buffer: &str, cursor: usize, key: Option<i32>) -> (Vec<char>, usize, Option<i32>, Ui) {
    let mut ui = Ui::default();
    ui.key = key;
    ui.begin(Vec2::new(0, 0), LayoutKind::Vert);
    let mut buf = chars(buffer);
    let mut cur = cursor;
    ui.edit_field(&mut buf, &mut cur, 20);
    let key_after = ui.key;
    ui.end();
    (buf, cur, key_after, ui)
}

#[test]
fn edit_insert_printable_grows_buffer_at_cursor() {
    let (buf, cur, key, _) = edit_once("hello", 2, Some('x' as i32));
    assert_eq!(buf, chars("hexllo"));
    assert_eq!(cur, 3);
    assert_eq!(key, None);
}

#[test]
fn edit_insert_at_end_appends() {
    let (buf, cur, key, _) = edit_once("ab", 2, Some('!' as i32));
    assert_eq!(buf, chars("ab!"));
    assert_eq!(cur, 3);
    assert_eq!(key, None);
}

#[test]
fn edit_backspace_at_start_is_noop() {
    let (buf, cur, key, _) = edit_once("hello", 0, Some(KEY_BACKSPACE));
    assert_eq!(buf, chars("hello"));
    assert_eq!(cur, 0);
    assert_eq!(key, None);
}

#[test]
fn edit_backspace_removes_before_cursor() {
    let (buf, cur, key, _) = edit_once("abcd", 2, Some(KEY_BACKSPACE));
    assert_eq!(buf, chars("acd"));
    assert_eq!(cur, 1);
    assert_eq!(key, None);
}

#[test]
fn edit_delete_at_end_is_noop() {
    let (buf, cur, key, _) = edit_once("hello", 5, Some(KEY_DC));
    assert_eq!(buf, chars("hello"));
    assert_eq!(cur, 5);
    assert_eq!(key, None);
}

#[test]
fn edit_delete_removes_at_cursor() {
    let (buf, cur, key, _) = edit_once("abcd", 1, Some(KEY_DC));
    assert_eq!(buf, chars("acd"));
    assert_eq!(cur, 1);
    assert_eq!(key, None);
}

#[test]
fn edit_left_and_right_move_within_bounds() {
    let (_, cur, _, _) = edit_once("abc", 2, Some(KEY_LEFT));
    assert_eq!(cur, 1);
    let (_, cur, _, _) = edit_once("abc", 0, Some(KEY_LEFT));
    assert_eq!(cur, 0);
    let (_, cur, _, _) = edit_once("abc", 2, Some(KEY_RIGHT));
    assert_eq!(cur, 3);
    let (_, cur, _, _) = edit_once("abc", 3, Some(KEY_RIGHT));
    assert_eq!(cur, 3);
}

#[test]
fn edit_clamps_cursor_to_buffer_length() {
    let (buf, cur, _, _) = edit_once("ab", 99, None);
    assert_eq!(buf, chars("ab"));
    assert_eq!(cur, 2);
}

#[test]
fn edit_unmatched_key_stays_pending() {
    let (buf, cur, key, _) = edit_once("abc", 1, Some('\n' as i32));
    assert_eq!(buf, chars("abc"));
    assert_eq!(cur, 1);
    assert_eq!(key, Some('\n' as i32));
}

#[test]
fn edit_paints_buffer_and_cursor_marker() {
    let (_, _, _, ui) = edit_once("hello", 2, Some('x' as i32));
    assert_eq!(ui.cmds.len(), 2);
    assert_eq!(ui.cmds[0].pos.x, 0);
    assert_eq!(ui.cmds[0].pos.y, 0);
    assert_eq!(ui.cmds[0].text, chars("hexllo"));
    assert_eq!(ui.cmds[0].pair, REGULAR_PAIR);
    assert_eq!(ui.cmds[1].pos.x, 3);
    assert_eq!(ui.cmds[1].pos.y, 0);
    assert_eq!(ui.cmds[1].text, chars("l"));
    assert_eq!(ui.cmds[1].pair, HIGHLIGHT_PAIR);
}

#[test]
fn edit_cursor_marker_blank_at_end_of_buffer() {
    let (_, _, _, ui) = edit_once("ab", 2, None);
    assert_eq!(ui.cmds[1].pos.x, 2);
    assert_eq!(ui.cmds[1].text, chars(" "));
}
