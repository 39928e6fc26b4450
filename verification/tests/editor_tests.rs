use space_soup_editor::text_editor::{Pos, TextEditor};

fn editor(text: &str) -> TextEditor {
    let mut ed = TextEditor::empty();
    ed.set_text(text);
    ed
}

fn line(ed: &TextEditor, row: usize) -> String {
    ed.line(row).iter().collect()
}

fn lines(ed: &TextEditor) -> Vec<String> {
    (0..ed.line_count()).map(|r| line(ed, r)).collect()
}

#[test]
fn empty_editor_has_one_empty_line() {
    let ed = TextEditor::empty();
    assert_eq!(ed.line_count(), 1);
    assert_eq!(ed.text(), "");
    assert_eq!(ed.cursor(), Pos::new(0, 0));
    assert_eq!(ed.cursor_line_col(), (1, 1));
    assert!(!ed.has_selection());
    assert!(!ed.dirty);
    assert_eq!(ed.path, None);
}

#[test]
fn set_text_splits_expands_tabs_and_trims_cr() {
    let ed = editor("a\tb\r\nc\r\r\n\nd");
    assert_eq!(lines(&ed), vec!["a  b", "c", "", "d"]);
    assert_eq!(ed.text(), "a  b\nc\n\nd");
    assert_eq!(ed.cursor(), Pos::new(0, 0));
    let ed2 = editor("x\n");
    assert_eq!(lines(&ed2), vec!["x", ""]);
    let ed3 = editor("");
    assert_eq!(lines(&ed3), vec![""]);
}

#[test]
fn set_text_then_text_round_trips() {
    for t in ["", "one", "one\ntwo", "\n\n", "{\n  \"a\": 1\n}\n"] {
        assert_eq!(editor(t).text(), t);
    }
}

#[test]
fn insert_str_single_line() {
    let mut ed = editor("hello");
    ed.move_end(false);
    ed.insert_str(" world");
    assert_eq!(ed.text(), "hello world");
    assert_eq!(ed.cursor(), Pos::new(0, 11));
    assert!(ed.dirty);
    ed.insert_str("");
    assert_eq!(ed.text(), "hello world");
}

#[test]
fn insert_str_multi_line_and_tabs() {
    let mut ed = editor("abcd");
    ed.move_right(false);
    ed.move_right(false);
    ed.insert_str("X\r\nY\tZ\nW");
    assert_eq!(lines(&ed), vec!["abX", "Y  Z", "Wcd"]);
    assert_eq!(ed.cursor(), Pos::new(2, 1));
}

#[test]
fn insert_char_and_newline_keep_indent() {
    let mut ed = editor("    let x");
    ed.move_end(false);
    ed.insert_char(';');
    ed.newline();
    assert_eq!(lines(&ed), vec!["    let x;", "    "]);
    assert_eq!(ed.cursor(), Pos::new(1, 4));
}

#[test]
fn backspace_deletes_and_joins() {
    let mut ed = editor("ab\ncd");
    ed.move_down(false);
    ed.move_home(false);
    assert_eq!(ed.cursor(), Pos::new(1, 0));
    ed.backspace();
    assert_eq!(lines(&ed), vec!["abcd"]);
    assert_eq!(ed.cursor(), Pos::new(0, 2));
    ed.backspace();
    assert_eq!(lines(&ed), vec!["acd"]);
    assert_eq!(ed.cursor(), Pos::new(0, 1));
}

#[test]
fn backspace_at_start_changes_nothing() {
    let mut ed = editor("ab");
    ed.backspace();
    assert_eq!(ed.text(), "ab");
    assert!(!ed.dirty);
    ed.undo();
    assert_eq!(ed.text(), "ab");
    assert!(!ed.dirty);
}

#[test]
fn delete_forward_deletes_and_joins() {
    let mut ed = editor("ab\ncd");
    ed.delete_forward();
    assert_eq!(lines(&ed), vec!["b", "cd"]);
    ed.move_end(false);
    ed.delete_forward();
    assert_eq!(lines(&ed), vec!["bcd"]);
    ed.move_end(false);
    ed.delete_forward();
    assert_eq!(lines(&ed), vec!["bcd"]);
}

#[test]
fn undo_and_redo_restore_text_and_cursor() {
    let mut ed = editor("abc");
    ed.move_end(false);
    ed.insert_str("d");
    ed.insert_str("e");
    assert_eq!(ed.text(), "abcde");
    ed.undo();
    assert_eq!(ed.text(), "abcd");
    assert_eq!(ed.cursor(), Pos::new(0, 4));
    ed.undo();
    assert_eq!(ed.text(), "abc");
    assert_eq!(ed.cursor(), Pos::new(0, 3));
    ed.undo();
    assert_eq!(ed.text(), "abc");
    ed.redo();
    assert_eq!(ed.text(), "abcd");
    ed.redo();
    assert_eq!(ed.text(), "abcde");
    ed.redo();
    assert_eq!(ed.text(), "abcde");
}

#[test]
fn new_edit_forgets_redo() {
    let mut ed = editor("a");
    ed.move_end(false);
    ed.insert_str("b");
    ed.undo();
    ed.insert_str("c");
    ed.redo();
    assert_eq!(ed.text(), "ac");
}

#[test]
fn undo_keeps_at_most_two_hundred_steps() {
    let mut ed = editor("");
    for _ in 0..205 {
        ed.insert_char('x');
    }
    for _ in 0..300 {
        ed.undo();
    }
    assert_eq!(ed.text(), "xxxxx");
}

#[test]
fn select_all_copy_paste() {
    let mut ed = editor("one\ntwo\nthree");
    ed.select_all();
    assert!(ed.has_selection());
    assert_eq!(ed.cursor(), Pos::new(2, 5));
    ed.copy();
    ed.move_end(false);
    ed.newline();
    ed.paste();
    assert_eq!(ed.text(), "one\ntwo\nthree\none\ntwo\nthree");
}

#[test]
fn selection_with_shift_and_cut() {
    let mut ed = editor("hello world");
    ed.move_right(true);
    ed.move_right(true);
    ed.move_right(true);
    assert_eq!(ed.selection_range(), Some((Pos::new(0, 0), Pos::new(0, 3))));
    ed.cut();
    assert_eq!(ed.text(), "lo world");
    assert!(!ed.has_selection());
    ed.move_end(false);
    ed.paste();
    assert_eq!(ed.text(), "lo worldhel");
}

#[test]
fn multi_line_selection_delete() {
    let mut ed = editor("abc\ndef\nghi");
    ed.move_right(false);
    ed.move_down(true);
    ed.move_down(true);
    assert_eq!(ed.selection_range(), Some((Pos::new(0, 1), Pos::new(2, 1))));
    ed.copy();
    ed.insert_char('Z');
    assert_eq!(ed.text(), "aZhi");
    ed.move_end(false);
    ed.paste();
    assert_eq!(ed.text(), "aZhibc\ndef\ng");
    ed.undo();
    ed.undo();
    assert_eq!(ed.text(), "ahi");
    ed.undo();
    assert_eq!(ed.text(), "abc\ndef\nghi");
}

#[test]
fn backwards_selection_is_ordered() {
    let mut ed = editor("abc\ndef");
    ed.move_down(false);
    ed.move_end(false);
    ed.move_up(true);
    assert_eq!(ed.selection_range(), Some((Pos::new(0, 3), Pos::new(1, 3))));
    ed.move_left(false);
    assert!(!ed.has_selection());
}

#[test]
fn cursor_moves_wrap_and_clamp() {
    let mut ed = editor("ab\nc\ndefg");
    ed.move_left(false);
    assert_eq!(ed.cursor(), Pos::new(0, 0));
    ed.move_end(false);
    ed.move_right(false);
    assert_eq!(ed.cursor(), Pos::new(1, 0));
    ed.move_left(false);
    assert_eq!(ed.cursor(), Pos::new(0, 2));
    ed.move_down(false);
    assert_eq!(ed.cursor(), Pos::new(1, 1));
    ed.move_down(false);
    ed.move_down(false);
    assert_eq!(ed.cursor(), Pos::new(2, 4));
    ed.move_up(false);
    ed.move_up(false);
    ed.move_up(false);
    assert_eq!(ed.cursor(), Pos::new(0, 0));
}

#[test]
fn home_toggles_between_indent_and_start() {
    let mut ed = editor("   x");
    ed.move_end(false);
    ed.move_home(false);
    assert_eq!(ed.cursor(), Pos::new(0, 3));
    ed.move_home(false);
    assert_eq!(ed.cursor(), Pos::new(0, 0));
    ed.move_home(false);
    assert_eq!(ed.cursor(), Pos::new(0, 3));
}

#[test]
fn page_moves_by_view_rows() {
    let text: Vec<String> = (0..50).map(|i| format!("line {i}")).collect();
    let mut ed = editor(&text.join("\n"));
    ed.page(true, false);
    assert_eq!(ed.cursor().row, 20);
    ed.set_viewport(10, 40);
    ed.page(true, false);
    assert_eq!(ed.cursor().row, 28);
    ed.page(false, false);
    assert_eq!(ed.cursor().row, 20);
    for _ in 0..10 {
        ed.page(true, false);
    }
    assert_eq!(ed.cursor().row, 49);
    ed.page(false, true);
    assert_eq!(ed.cursor().row, 41);
    assert!(ed.has_selection());
}

#[test]
fn viewport_follows_cursor() {
    let text: Vec<String> = (0..30).map(|_| "0123456789012345678901234567890".to_string()).collect();
    let mut ed = editor(&text.join("\n"));
    ed.set_viewport(5, 10);
    assert_eq!(ed.scroll(), (0, 0));
    for _ in 0..7 {
        ed.move_down(false);
    }
    assert_eq!(ed.scroll(), (3, 0));
    ed.move_end(false);
    assert_eq!(ed.cursor(), Pos::new(7, 31));
    assert_eq!(ed.scroll(), (3, 22));
    ed.move_home(false);
    assert_eq!(ed.scroll(), (3, 0));
    ed.move_up(false);
    ed.move_up(false);
    ed.move_up(false);
    ed.move_up(false);
    assert_eq!(ed.scroll(), (3, 0));
    ed.move_up(false);
    assert_eq!(ed.scroll(), (2, 0));
}

#[test]
fn scroll_by_clamps() {
    let mut ed = editor("a\nb\nc\nd");
    ed.scroll_by(2);
    assert_eq!(ed.scroll().0, 2);
    ed.scroll_by(10);
    assert_eq!(ed.scroll().0, 3);
    ed.scroll_by(-10);
    assert_eq!(ed.scroll().0, 0);
}

#[test]
fn cell_pos_click_and_drag() {
    let mut ed = editor("short\na much longer line\nx");
    let p = ed.cell_pos(1, 100);
    assert_eq!(p, Pos::new(1, 18));
    let q = ed.cell_pos(9, 3);
    assert_eq!(q, Pos::new(2, 1));
    ed.click(p, false);
    assert_eq!(ed.cursor(), p);
    assert!(!ed.has_selection());
    let r = ed.cell_pos(0, 2);
    ed.drag_to(r);
    assert_eq!(ed.selection_range(), Some((Pos::new(0, 2), Pos::new(1, 18))));
    ed.click(Pos::new(2, 0), true);
    assert_eq!(ed.selection_range(), Some((Pos::new(1, 18), Pos::new(2, 0))));
}

#[test]
fn select_all_on_empty_text_selects_nothing() {
    let mut ed = editor("");
    ed.select_all();
    assert!(!ed.has_selection());
    ed.copy();
    ed.paste();
    assert_eq!(ed.text(), "");
}

#[test]
fn positions_compare_in_document_order() {
    assert!(Pos::new(1, 5) < Pos::new(2, 0));
    assert!(Pos::new(2, 0) < Pos::new(2, 1));
    assert!(Pos::new(3, 0) > Pos::new(2, 9));
    assert!(Pos::new(2, 4) <= Pos::new(2, 4));
    assert_eq!(Pos::new(0, 7).partial_cmp(&Pos::new(1, 0)), Some(std::cmp::Ordering::Less));
    assert_eq!(Pos::new(4, 1).cmp(&Pos::new(4, 0)), std::cmp::Ordering::Greater);
}

#[test]
fn backspace_join_keeps_anchor_on_removed_row() {
    let mut ed = TextEditor::empty();
    ed.newline();
    ed.move_down(true);
    assert_eq!(ed.anchor(), Some(Pos::new(1, 0)));
    assert!(!ed.has_selection());
    ed.backspace();
    assert_eq!(ed.line_count(), 1);
    assert_eq!(ed.cursor(), Pos::new(0, 0));
    assert_eq!(ed.anchor(), Some(Pos::new(1, 0)));
    assert!(ed.has_selection());
    // A plain move drops the stale anchor; editing works again.
    ed.move_right(false);
    assert_eq!(ed.anchor(), None);
    ed.insert_str("ab");
    assert_eq!(ed.text(), "ab");
}

#[test]
fn cursor_can_end_up_past_its_line() {
    let mut ed = editor("ab
c");
    ed.move_end(false);
    ed.move_end(true);
    ed.backspace();
    assert_eq!(ed.text(), "a\nc");
    assert_eq!(ed.selection_range(), Some((Pos::new(0, 1), Pos::new(0, 2))));
    ed.move_down(true);
    assert_eq!(ed.selection_range(), Some((Pos::new(0, 2), Pos::new(1, 1))));
    ed.delete_forward();
    assert_eq!(ed.text(), "a");
    assert_eq!(ed.cursor(), Pos::new(0, 2));
}

#[test]
fn undo_after_typing_and_redo_twice() {
    let mut ed = editor("ab\ncd");
    ed.move_right(false);
    let (t0, c0) = (ed.text(), ed.cursor_line_col());
    ed.insert_str("X\nY");
    let (t1, c1) = (ed.text(), ed.cursor_line_col());
    assert_eq!(t1, "aX\nYb\ncd");
    ed.undo();
    assert_eq!((ed.text(), ed.cursor_line_col()), (t0, c0));
    assert!(!ed.has_selection() && ed.dirty);
    ed.redo();
    assert_eq!((ed.text(), ed.cursor_line_col()), (t1.clone(), c1));
    assert!(!ed.has_selection() && ed.dirty);
    ed.redo();
    assert_eq!((ed.text(), ed.cursor_line_col()), (t1, c1));
}

#[test]
fn cut_all_then_paste_restores_text() {
    let mut ed = editor("first\n  second\nlast line");
    let t = ed.text();
    ed.select_all();
    ed.cut();
    assert_eq!(ed.text(), "");
    ed.paste();
    assert_eq!(ed.text(), t);
    assert!(!ed.has_selection() && ed.dirty);
    assert_eq!(ed.cursor_line_col(), (ed.line_count(), "last line".chars().count() + 1));
}

#[test]
fn move_right_then_left_returns() {
    let mut ed = editor("ab\nc");
    for (r, c) in [(0, 0), (0, 1), (0, 2), (1, 0)] {
        ed.click(Pos::new(r, c), false);
        let (t, lc) = (ed.text(), ed.cursor_line_col());
        ed.move_right(false);
        ed.move_left(false);
        assert_eq!((ed.text(), ed.cursor_line_col()), (t, lc));
        assert!(!ed.has_selection());
    }
}
