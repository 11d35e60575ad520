use yed::editline::InputLine;
use yed::input::{InputAction, InputContext, Key, KeyPress, Mode, VimInputHandler};
use yed::path::NodePath;
use yed::session::{App, Effect};

fn plain(key: Key) -> KeyPress {
    KeyPress {
        key,
        shift: false,
        control: false,
    }
}

fn app(text: &str) -> App {
    let a = App::from_text(String::new(), text);
    assert!(a.parse_error.is_none());
    a
}

#[test]
fn selection_survives_edit_above_by_path() {
    // Select the row for path "b", delete the row above it, rebuild: the
    // selection re-resolves to "b"'s new index, not the old numeric index.
    let mut a = app("a: 1\nb: 2\nc: 3\n");
    let b = NodePath(Vec::new()).child_key("b");
    let idx = yed::visible::visible_row_by_path(&a.visible, &b).unwrap();
    assert_eq!(idx, 2);
    a.selection = idx;
    a.model.delete_node(&NodePath(Vec::new()).child_key("a")).unwrap();
    a.rebuild_visible();
    assert_eq!(a.selection, 1);
    assert_eq!(a.visible[a.selection].path.dot_path(), "b");
}

#[test]
fn two_step_add_key_then_value() {
    let mut a = app("{}\n");
    // Root mapping row selected; 'a' starts key entry.
    let e = a.handle_key(plain(Key::Char('a')), 20, 0);
    assert_eq!(e, Effect::Continue);
    assert_eq!(a.mode, Mode::AddKey);
    for ch in "port".chars() {
        a.handle_key(plain(Key::Char(ch)), 20, 0);
    }
    a.handle_key(plain(Key::Enter), 20, 0);
    assert_eq!(a.mode, Mode::AddValue);
    assert_eq!(a.pending_key.as_deref(), Some("port"));
    for ch in "8080".chars() {
        a.handle_key(plain(Key::Char(ch)), 20, 0);
    }
    a.handle_key(plain(Key::Enter), 20, 0);
    assert_eq!(a.mode, Mode::Normal);
    assert!(a.dirty);
    assert_eq!(a.visible[1].path.dot_path(), "port");
    assert_eq!(a.visible[1].display_value_preview, "8080");
}

#[test]
fn empty_key_is_rejected_with_notice() {
    let mut a = app("{}\n");
    a.handle_key(plain(Key::Char('a')), 20, 0);
    assert_eq!(a.mode, Mode::AddKey);
    a.handle_key(plain(Key::Enter), 20, 5);
    // The mode stays AddKey and a notice is posted.
    assert_eq!(a.mode, Mode::AddKey);
    assert!(a.toast.is_some());
}

#[test]
fn quit_needs_confirmation() {
    let mut a = app("a: 1\n");
    let e = a.handle_key(plain(Key::Char('q')), 20, 0);
    assert_eq!(e, Effect::Continue);
    assert_eq!(a.mode, Mode::ConfirmQuit);
    let e = a.handle_key(plain(Key::Char('n')), 20, 0);
    assert_eq!(e, Effect::Continue);
    assert_eq!(a.mode, Mode::Normal);
    a.handle_key(plain(Key::Char('q')), 20, 0);
    let e = a.handle_key(plain(Key::Char('y')), 20, 0);
    assert_eq!(e, Effect::Quit);
}

#[test]
fn gg_jumps_top_and_other_key_clears_pending() {
    let mut vim = VimInputHandler::new();
    let mode = Mode::Normal;
    let first = vim.handle_key(InputContext {
        mode: &mode,
        key: plain(Key::Char('g')),
    });
    assert_eq!(first, None);
    let second = vim.handle_key(InputContext {
        mode: &mode,
        key: plain(Key::Char('g')),
    });
    assert_eq!(second, Some(InputAction::JumpTop));
    // Arming then pressing another key clears the one-shot flag.
    vim.handle_key(InputContext {
        mode: &mode,
        key: plain(Key::Char('g')),
    });
    vim.handle_key(InputContext {
        mode: &mode,
        key: plain(Key::Char('j')),
    });
    let after = vim.handle_key(InputContext {
        mode: &mode,
        key: plain(Key::Char('g')),
    });
    assert_eq!(after, None);
}

#[test]
fn escape_answers_no_in_confirm_modes() {
    let mut vim = VimInputHandler::new();
    let mode = Mode::ConfirmDelete;
    let r = vim.handle_key(InputContext {
        mode: &mode,
        key: plain(Key::Esc),
    });
    assert_eq!(r, Some(InputAction::ConfirmNo));
    let r = vim.handle_key(InputContext {
        mode: &mode,
        key: plain(Key::Char('x')),
    });
    assert_eq!(r, None);
}

#[test]
fn search_commit_jumps_to_first_match() {
    let mut a = app("alpha: 1\nbeta:\n  hidden: 2\ngamma: 3\n");
    a.handle_key(plain(Key::Char('/')), 20, 0);
    assert_eq!(a.mode, Mode::SearchInput);
    for ch in "hidden".chars() {
        a.handle_key(plain(Key::Char(ch)), 20, 0);
    }
    a.handle_key(plain(Key::Enter), 20, 0);
    assert_eq!(a.mode, Mode::Normal);
    // The query force-expands the path to the match and selects it.
    assert_eq!(a.visible[a.selection].path.dot_path(), "beta.hidden");
    // Cancelling the next search clears the query and restores the rows.
    a.handle_key(plain(Key::Char('/')), 20, 0);
    a.handle_key(plain(Key::Esc), 20, 0);
    assert!(a.search_query.is_none());
    let dots: Vec<String> = a.visible.iter().map(|r| r.path.dot_path()).collect();
    assert_eq!(dots, vec!["", "alpha", "beta", "gamma"]);
}

#[test]
fn no_match_notice() {
    let mut a = app("a: 1\n");
    a.handle_key(plain(Key::Char('/')), 20, 0);
    for ch in "zzz".chars() {
        a.handle_key(plain(Key::Char(ch)), 20, 0);
    }
    a.handle_key(plain(Key::Enter), 20, 7);
    assert!(a.toast.is_some());
    assert!(a.matches.is_empty());
}

#[test]
fn edit_value_commit_updates_document() {
    let mut a = app("a: 1\n");
    a.selection = 1;
    a.handle_key(plain(Key::Char('e')), 20, 0);
    assert_eq!(a.mode, Mode::EditValue);
    // The buffer opens on the preview; replace it wholesale.
    a.input.set("false".to_string());
    a.handle_key(plain(Key::Enter), 20, 0);
    assert_eq!(a.mode, Mode::Normal);
    assert!(a.dirty);
    assert_eq!(a.visible[1].display_value_preview, "false");
}

#[test]
fn raw_fallback_mode_edits_lines_and_reparses() {
    let mut a = App::from_text(String::new(), "a: [1, 2\nb: 3\n");
    assert!(a.parse_error.is_some());
    let lines: Vec<String> = a.raw_lines().unwrap().clone();
    assert_eq!(lines, vec!["a: [1, 2".to_string(), "b: 3".to_string()]);
    // Replace the broken line, delete nothing out of range, then reparse.
    a.raw_replace_line(0, "a: [1, 2]");
    a.raw_replace_line(99, "ignored");
    assert_eq!(a.raw_text().unwrap(), "a: [1, 2]\nb: 3");
    a.reparse_raw(0);
    assert!(a.parse_error.is_none());
    assert!(a.raw_lines().is_none());
    assert!(!a.dirty);
    let dots: Vec<String> = a.visible.iter().map(|r| r.path.dot_path()).collect();
    assert_eq!(dots, vec!["", "a", "b"]);
}

#[test]
fn raw_delete_line_clamps_selection() {
    let mut a = App::from_text(String::new(), "a: [1, 2\nb: 3\n");
    assert!(a.parse_error.is_some());
    a.selection = 1;
    a.raw_delete_line(1);
    assert!(a.dirty);
    assert_eq!(a.selection, 0);
    assert_eq!(a.raw_lines().unwrap().len(), 1);
}

#[test]
fn toast_expires_after_interval() {
    let mut a = app("a: 1\n");
    a.set_toast("hello".to_string(), 1000);
    a.update_toast(2999);
    assert!(a.toast.is_some());
    a.update_toast(3000);
    assert!(a.toast.is_none());
}

#[test]
fn reload_gating_respects_dirty_and_throttle() {
    let mut a = App::from_text("f.yaml".to_string(), "a: 1\n");
    assert!(a.reload_check_due(0));
    a.note_file_check(1000);
    assert!(!a.reload_check_due(2000));
    assert!(a.reload_check_due(2500));
    a.dirty = true;
    assert!(!a.reload_check_due(9999));
    a.dirty = false;
    assert!(a.should_reload(1));
    a.last_modified_ms = Some(500);
    assert!(!a.should_reload(500));
    assert!(a.should_reload(501));
}

#[test]
fn input_line_is_character_safe() {
    let mut line = InputLine::new();
    line.insert_char('é');
    line.insert_char('b');
    assert_eq!(line.text, "éb");
    assert_eq!(line.cursor, 2);
    line.move_left();
    line.insert_char('x');
    assert_eq!(line.text, "éxb");
    line.backspace();
    assert_eq!(line.text, "éb");
    line.move_home();
    line.delete();
    assert_eq!(line.text, "b");
    line.move_end();
    assert_eq!(line.cursor, 1);
    line.backspace();
    assert_eq!(line.text, "");
}

#[test]
fn osc52_sequence_encodes_payload() {
    let seq = yed::clipboard::osc52_sequence("hello");
    assert_eq!(seq, "\u{1b}]52;c;aGVsbG8=\u{7}");
    assert_eq!(yed::clipboard::osc52_sequence(""), "\u{1b}]52;c;\u{7}");
}

#[test]
fn expand_collapse_via_keys() {
    let mut a = app("server:\n  tls: on\n");
    a.selection = 1;
    a.handle_key(plain(Key::Char('l')), 20, 0);
    assert_eq!(a.visible.len(), 3);
    a.handle_key(plain(Key::Char('h')), 20, 0);
    assert_eq!(a.visible.len(), 2);
    // Enter toggles the same container.
    a.handle_key(plain(Key::Enter), 20, 0);
    assert_eq!(a.visible.len(), 3);
}

#[test]
fn copy_path_yields_effect() {
    let mut a = app("server:\n  tls: on\n");
    a.selection = 1;
    let e = a.handle_key(plain(Key::Char('y')), 20, 0);
    assert_eq!(e, Effect::CopyText("server".to_string()));
}

#[test]
fn save_routes_by_mode() {
    let mut a = app("a: 1\n");
    let e = a.apply_action(InputAction::Save, 20, 0);
    assert_eq!(e, Effect::SaveTree);
    let mut b = App::from_text(String::new(), "a: [1, 2\n");
    let e = b.apply_action(InputAction::Save, 20, 0);
    assert_eq!(e, Effect::SaveRaw);
}

#[test]
fn delete_via_confirmation() {
    let mut a = app("a: 1\nb: 2\n");
    a.selection = 1;
    a.handle_key(plain(Key::Char('d')), 20, 0);
    assert_eq!(a.mode, Mode::ConfirmDelete);
    a.handle_key(plain(Key::Char('y')), 20, 0);
    assert_eq!(a.mode, Mode::Normal);
    assert!(a.dirty);
    let dots: Vec<String> = a.visible.iter().map(|r| r.path.dot_path()).collect();
    assert_eq!(dots, vec!["", "b"]);
}

#[test]
fn viewport_follows_selection() {
    let mut a = app("a: 1\nb: 2\nc: 3\nd: 4\ne: 5\nf: 6\n");
    // Seven rows, viewport of three.
    for _ in 0..6 {
        a.handle_key(plain(Key::Char('j')), 3, 0);
    }
    assert_eq!(a.selection, 6);
    assert_eq!(a.scroll, 4);
    a.handle_key(plain(Key::Char('g')), 3, 0);
    a.handle_key(plain(Key::Char('g')), 3, 0);
    assert_eq!(a.selection, 0);
    a.ensure_visible(3);
    assert_eq!(a.scroll, 0);
}

#[test]
fn external_reload_replaces_document() {
    let mut a = app("a: 1\n");
    a.selection = 1;
    a.apply_reload("x: 9\ny: 10\n", 100, 50);
    assert_eq!(a.last_modified_ms, Some(100));
    assert!(a.toast.is_some());
    let dots: Vec<String> = a.visible.iter().map(|r| r.path.dot_path()).collect();
    assert_eq!(dots, vec!["", "x", "y"]);
}

#[test]
fn committing_empty_search_clears_query() {
    let mut a = app("abc: 1\n");
    a.handle_key(plain(Key::Char('/')), 20, 0);
    a.handle_key(plain(Key::Char('a')), 20, 0);
    a.handle_key(plain(Key::Backspace), 20, 0);
    a.handle_key(plain(Key::Enter), 20, 0);
    assert!(a.search_query.is_none());
    assert_eq!(a.mode, Mode::Normal);
    assert_eq!(a.visible.len(), 2);
}

#[test]
fn rename_via_keys_rejects_collision() {
    let mut a = app("a: 1\nb: 2\n");
    a.selection = 1;
    a.handle_key(plain(Key::Char('r')), 20, 0);
    assert_eq!(a.mode, Mode::RenameKey);
    // The buffer opens on the current key; retype it as the sibling's name.
    a.input.set("b".to_string());
    a.handle_key(plain(Key::Enter), 20, 9);
    // The rename fails with a notice and the mode stays put for correction.
    assert!(a.toast.is_some());
    assert_eq!(a.mode, Mode::RenameKey);
    let dots: Vec<String> = a.visible.iter().map(|r| r.path.dot_path()).collect();
    assert_eq!(dots, vec!["", "a", "b"]);
}

#[test]
fn empty_document_takes_first_key_interactively() {
    // An empty document shows the one root container row, so the add flow
    // works from the first keystroke.
    let mut a = app("");
    assert_eq!(a.visible.len(), 1);
    assert!(a.visible[0].is_container);
    a.handle_key(plain(Key::Char('a')), 20, 0);
    assert_eq!(a.mode, Mode::AddKey);
    for ch in "name".chars() {
        a.handle_key(plain(Key::Char(ch)), 20, 0);
    }
    a.handle_key(plain(Key::Enter), 20, 0);
    for ch in "\"x\"".chars() {
        a.handle_key(plain(Key::Char(ch)), 20, 0);
    }
    a.handle_key(plain(Key::Enter), 20, 0);
    assert_eq!(a.mode, Mode::Normal);
    assert!(a.dirty);
    assert_eq!(a.visible[1].path.dot_path(), "name");
    assert_eq!(a.visible[1].display_value_preview, "\"x\"");
}

#[test]
fn empty_search_commit_resets_matches() {
    let mut a = app("abc: 1\n");
    // Commit a real query first so the match list is nonempty.
    a.handle_key(plain(Key::Char('/')), 20, 0);
    a.handle_key(plain(Key::Char('a')), 20, 0);
    a.handle_key(plain(Key::Enter), 20, 0);
    assert!(!a.matches.is_empty());
    // Committing an empty query clears the query and the match list.
    a.handle_key(plain(Key::Char('/')), 20, 0);
    a.handle_key(plain(Key::Enter), 20, 0);
    assert!(a.search_query.is_none());
    assert!(a.matches.is_empty());
}
