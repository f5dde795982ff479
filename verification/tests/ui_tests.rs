//! Tests for the decisions of the interface: key ownership, navigation and
//! the actions against the repository and the assistant.

use commit_wizard::editor::{Key, KeyPress, CONTROL, SHIFT};
use commit_wizard::types::{
    ActivePanel, AppState, ChangeGroup, ChangedFile, CommitType, INDEX_MODIFIED, INDEX_NEW,
};
use commit_wizard::ui::{
    apply_commit_result, apply_diff_result, apply_generation_result, commit_all_record,
    commit_all_start, handle_ai_generate_action, handle_commit_action, handle_diff_action,
    handle_edit_action, handle_key_event, owner, panel_command, Action, Command, CommitRun,
    Overlay,
};
use ratatui::crossterm::event::{KeyCode, KeyEvent, KeyModifiers};

fn group(description: &str, paths: &[&str]) -> ChangeGroup {
    ChangeGroup::new(
        CommitType::Feat,
        None,
        paths.iter().map(|p| ChangedFile::new(p.to_string(), INDEX_MODIFIED)).collect(),
        None,
        description.to_string(),
        vec![],
    )
}

fn three_groups() -> AppState {
    AppState::new(vec![
        group("a", &["a1", "a2", "a3"]),
        group("b", &["b1"]),
        group("c", &[]),
    ])
}

fn key(code: KeyCode) -> KeyEvent {
    KeyEvent::new(code, KeyModifiers::NONE)
}

fn press(app: &mut AppState, code: KeyCode) -> Action {
    handle_key_event(key(code), app, true)
}

fn press_with(app: &mut AppState, code: KeyCode, modifiers: KeyModifiers) -> Action {
    handle_key_event(KeyEvent::new(code, modifiers), app, true)
}

#[test]
fn tab_cycles_through_the_three_panels() {
    let mut app = three_groups();
    assert_eq!(app.active_panel, ActivePanel::Groups);
    assert_eq!(press(&mut app, KeyCode::Tab), Action::Stay);
    assert_eq!(app.active_panel, ActivePanel::CommitMessage);
    press(&mut app, KeyCode::Tab);
    assert_eq!(app.active_panel, ActivePanel::Files);
    press(&mut app, KeyCode::Tab);
    assert_eq!(app.active_panel, ActivePanel::Groups);
}

#[test]
fn back_tab_and_shift_tab_reverse_the_cycle() {
    let mut app = three_groups();
    press(&mut app, KeyCode::BackTab);
    assert_eq!(app.active_panel, ActivePanel::Files);
    press_with(&mut app, KeyCode::Tab, KeyModifiers::SHIFT);
    assert_eq!(app.active_panel, ActivePanel::CommitMessage);
    press_with(&mut app, KeyCode::BackTab, KeyModifiers::SHIFT);
    assert_eq!(app.active_panel, ActivePanel::Groups);
    assert_eq!(ActivePanel::Groups.next().next().next(), ActivePanel::Groups);
    assert_eq!(ActivePanel::Files.previous(), ActivePanel::CommitMessage);
}

#[test]
fn files_panel_with_no_files_keeps_the_file_cursor() {
    let mut app = AppState::new(vec![group("empty", &[])]);
    press(&mut app, KeyCode::BackTab);
    assert_eq!(app.active_panel, ActivePanel::Files);
    assert_eq!(app.selected_file_index, 0);
    press(&mut app, KeyCode::Down);
    assert_eq!(app.selected_file_index, 0);
    press(&mut app, KeyCode::Up);
    assert_eq!(app.selected_file_index, 0);
    press(&mut app, KeyCode::Char('j'));
    press(&mut app, KeyCode::Char('k'));
    assert_eq!(app.selected_file_index, 0);

    // without any group at all
    let mut none = AppState::new(vec![]);
    press(&mut none, KeyCode::BackTab);
    press(&mut none, KeyCode::Down);
    press(&mut none, KeyCode::Up);
    assert_eq!(none.selected_file_index, 0);
    assert_eq!(none.selected_index, 0);
}

#[test]
fn files_panel_moves_the_file_cursor_with_wrap_around() {
    let mut app = three_groups();
    app.active_panel = ActivePanel::Files;
    press(&mut app, KeyCode::Down);
    assert_eq!(app.selected_file_index, 1);
    press(&mut app, KeyCode::Char('j'));
    assert_eq!(app.selected_file_index, 2);
    press(&mut app, KeyCode::Down);
    assert_eq!(app.selected_file_index, 0);
    press(&mut app, KeyCode::Up);
    assert_eq!(app.selected_file_index, 2);
    press(&mut app, KeyCode::Char('k'));
    assert_eq!(app.selected_file_index, 1);
    assert_eq!(app.selected_file().unwrap().path, "a2");
}

#[test]
fn groups_panel_moves_the_selection_and_resets_what_depends_on_it() {
    let mut app = three_groups();
    app.selected_file_index = 2;
    app.commit_message_scroll_offset = 1;
    press(&mut app, KeyCode::Down);
    assert_eq!(app.selected_index, 1);
    assert_eq!(app.selected_file_index, 0);
    assert_eq!(app.commit_message_scroll_offset, 0);
    press(&mut app, KeyCode::Down);
    press(&mut app, KeyCode::Down);
    assert_eq!(app.selected_index, 0);
    press(&mut app, KeyCode::Up);
    assert_eq!(app.selected_index, 2);
}

#[test]
fn commit_message_panel_scrolls_within_the_message() {
    let mut g = group("a", &["a1"]);
    g.body_lines = vec!["one".to_string(), "two".to_string()];
    // the message has four lines: header, blank, two bullets
    let mut app = AppState::new(vec![g]);
    app.active_panel = ActivePanel::CommitMessage;
    press(&mut app, KeyCode::Up);
    assert_eq!(app.commit_message_scroll_offset, 0);
    for expected in [1, 2, 3, 3, 3] {
        press(&mut app, KeyCode::Down);
        assert_eq!(app.commit_message_scroll_offset, expected);
    }
    press(&mut app, KeyCode::Char('k'));
    assert_eq!(app.commit_message_scroll_offset, 2);
}

#[test]
fn quit_keys() {
    let mut app = three_groups();
    assert_eq!(press(&mut app, KeyCode::Char('q')), Action::Quit);
    assert_eq!(press(&mut app, KeyCode::Esc), Action::Quit);
    assert_eq!(press(&mut app, KeyCode::Char('x')), Action::Stay);
    assert_eq!(press(&mut app, KeyCode::F(1)), Action::Stay);
}

#[test]
fn key_map_of_the_panels() {
    let p = |key: Key, modifiers: u8| panel_command(KeyPress { key, modifiers });
    assert_eq!(p(Key::Char('q'), 0), Command::Quit);
    assert_eq!(p(Key::Esc, 0), Command::Quit);
    assert_eq!(p(Key::Tab, 0), Command::NextPanel);
    assert_eq!(p(Key::Tab, SHIFT), Command::PreviousPanel);
    assert_eq!(p(Key::Tab, SHIFT | CONTROL), Command::PreviousPanel);
    assert_eq!(p(Key::BackTab, 0), Command::PreviousPanel);
    assert_eq!(p(Key::Down, 0), Command::Down);
    assert_eq!(p(Key::Char('j'), 0), Command::Down);
    assert_eq!(p(Key::Up, 0), Command::Up);
    assert_eq!(p(Key::Char('k'), 0), Command::Up);
    assert_eq!(p(Key::Char('e'), 0), Command::Edit);
    assert_eq!(p(Key::Char('d'), 0), Command::Diff);
    assert_eq!(p(Key::Char('a'), 0), Command::Generate);
    assert_eq!(p(Key::Char('c'), 0), Command::Commit);
    assert_eq!(p(Key::Char('c'), CONTROL), Command::Commit);
    assert_eq!(p(Key::Char('C'), 0), Command::CommitAll);
    assert_eq!(p(Key::Char('C'), SHIFT), Command::Nothing);
    assert_eq!(p(Key::Char('l'), CONTROL), Command::ClearStatus);
    assert_eq!(p(Key::Char('l'), CONTROL | SHIFT), Command::ClearStatus);
    assert_eq!(p(Key::Char('l'), 0), Command::Nothing);
    assert_eq!(p(Key::Enter, 0), Command::Nothing);
    assert_eq!(p(Key::Other, 0), Command::Nothing);
}

#[test]
fn overlay_priority() {
    let mut app = three_groups();
    assert_eq!(owner(&app), Overlay::Panels);
    app.set_status("note");
    assert_eq!(owner(&app), Overlay::Popup);
    app.editor.activate("text".to_string());
    assert_eq!(owner(&app), Overlay::Editor);
    app.show_diff("p".to_string(), "d".to_string());
    assert_eq!(owner(&app), Overlay::DiffViewer);
    app.toggle_editor_help();
    assert_eq!(owner(&app), Overlay::EditorHelp);

    // the help swallows everything but its closing keys
    assert_eq!(press(&mut app, KeyCode::Char('q')), Action::Stay);
    assert!(app.show_editor_help);
    press(&mut app, KeyCode::Char('?'));
    assert!(!app.show_editor_help);
    app.toggle_editor_help();
    press(&mut app, KeyCode::Esc);
    assert!(!app.show_editor_help);

    // then the diff viewer owns the keys
    assert_eq!(press(&mut app, KeyCode::Char('q')), Action::Stay);
    assert!(app.show_diff_viewer);
    assert_eq!(press(&mut app, KeyCode::Esc), Action::Stay);
    assert!(!app.show_diff_viewer);
    assert_eq!(app.diff_content, "");

    // then the editor
    assert_eq!(owner(&app), Overlay::Editor);
    assert_eq!(press(&mut app, KeyCode::Char('q')), Action::Stay);
    assert!(app.editor.is_active());
    press_with(&mut app, KeyCode::Char('c'), KeyModifiers::CONTROL);
    assert!(!app.editor.is_active());

    // then the popup
    assert_eq!(owner(&app), Overlay::Popup);
    assert_eq!(press(&mut app, KeyCode::Char('q')), Action::Stay);
    assert_eq!(app.status_message, "note");
    press(&mut app, KeyCode::Enter);
    assert_eq!(app.status_message, "");
    assert!(!app.popup_active);
    assert_eq!(owner(&app), Overlay::Panels);
    assert_eq!(press(&mut app, KeyCode::Char('q')), Action::Quit);
}

#[test]
fn popup_scrolls_and_closes() {
    let mut app = three_groups();
    app.set_status("one\ntwo\nthree");
    assert!(app.popup_active);
    press(&mut app, KeyCode::Up);
    assert_eq!(app.popup_scroll_offset, 0);
    for expected in [1, 2, 2] {
        press(&mut app, KeyCode::Down);
        assert_eq!(app.popup_scroll_offset, expected);
    }
    press(&mut app, KeyCode::Char('k'));
    assert_eq!(app.popup_scroll_offset, 1);
    press(&mut app, KeyCode::Char('j'));
    assert_eq!(app.popup_scroll_offset, 2);
    press(&mut app, KeyCode::Tab);
    assert_eq!(app.active_panel, ActivePanel::Groups);
    press(&mut app, KeyCode::Esc);
    assert!(!app.popup_active);
    assert_eq!(app.popup_scroll_offset, 0);
    assert_eq!(app.status_message, "");
}

#[test]
fn control_l_clears_the_status() {
    let mut app = three_groups();
    assert!(!app.status_message.is_empty());
    press_with(&mut app, KeyCode::Char('l'), KeyModifiers::CONTROL);
    assert_eq!(app.status_message, "");
}

#[test]
fn diff_viewer_scrolls() {
    let mut app = three_groups();
    app.show_diff("p".to_string(), "a\nb".to_string());
    assert_eq!(app.diff_file_path, "p");
    press(&mut app, KeyCode::Down);
    press(&mut app, KeyCode::Char('j'));
    assert_eq!(app.diff_scroll_offset, 1);
    press(&mut app, KeyCode::Up);
    press(&mut app, KeyCode::Char('k'));
    assert_eq!(app.diff_scroll_offset, 0);
    press(&mut app, KeyCode::Enter);
    assert!(app.show_diff_viewer);
}

#[test]
fn edit_opens_the_editor_on_the_full_message() {
    let mut g = group("add login", &["a"]);
    g.body_lines = vec!["validate token".to_string()];
    let mut app = AppState::new(vec![g]);
    assert_eq!(press(&mut app, KeyCode::Char('e')), Action::Stay);
    assert!(app.editor.is_active());
    assert_eq!(app.editor.text(), "feat: add login\n\n- validate token\n");
}

#[test]
fn edit_is_refused_for_a_committed_group() {
    let mut app = three_groups();
    app.groups[0].mark_as_committed();
    handle_edit_action(&mut app);
    assert!(!app.editor.is_active());
    assert_eq!(app.status_message, "✗ Cannot edit already committed group");
    assert!(app.popup_active);
}

#[test]
fn edit_without_a_group_opens_an_empty_editor() {
    let mut app = AppState::new(vec![]);
    handle_edit_action(&mut app);
    assert!(app.editor.is_active());
    assert_eq!(app.editor.text(), "");
}

#[test]
fn saving_in_the_editor_rewrites_the_selected_group() {
    let mut app = three_groups();
    press(&mut app, KeyCode::Down);
    press(&mut app, KeyCode::Char('e'));
    assert_eq!(app.editor.text(), "feat: b");
    // vim: A appends at the end of the line, then type, Esc leaves insert mode
    press_with(&mut app, KeyCode::Char('A'), KeyModifiers::SHIFT);
    for c in "etter".chars() {
        press(&mut app, KeyCode::Char(c));
    }
    assert_eq!(press_with(&mut app, KeyCode::Char('s'), KeyModifiers::CONTROL), Action::Stay);
    assert!(!app.editor.is_active());
    assert_eq!(app.groups[1].description, "better");
    assert_eq!(app.groups[0].description, "a");
    assert_eq!(app.groups[2].description, "c");
}

#[test]
fn cancelling_in_the_editor_changes_no_group() {
    let mut app = three_groups();
    press(&mut app, KeyCode::Char('e'));
    press(&mut app, KeyCode::Char('i'));
    press(&mut app, KeyCode::Char('z'));
    assert_eq!(app.editor.text(), "zfeat: a");
    press_with(&mut app, KeyCode::Char('c'), KeyModifiers::CONTROL);
    assert!(!app.editor.is_active());
    assert_eq!(app.editor.text(), "feat: a");
    assert_eq!(app.groups[0].description, "a");
}

#[test]
fn question_mark_in_the_editor_opens_the_help_on_top() {
    let mut app = three_groups();
    press(&mut app, KeyCode::Char('e'));
    press(&mut app, KeyCode::Char('?'));
    assert!(app.show_editor_help);
    assert!(app.editor.is_active());
    assert_eq!(app.editor.text(), "feat: a");
    press(&mut app, KeyCode::Char('?'));
    assert!(!app.show_editor_help);
    // with a modifier the question mark goes to the widget
    press_with(&mut app, KeyCode::Char('?'), KeyModifiers::SHIFT);
    assert!(!app.show_editor_help);
}

#[test]
fn diff_needs_the_files_panel() {
    let mut app = three_groups();
    assert_eq!(press(&mut app, KeyCode::Char('d')), Action::Stay);
    assert_eq!(app.status_message, "ℹ Switch to Files panel (Tab) to view diffs");
    app.clear_status();
    app.active_panel = ActivePanel::Files;
    app.selected_file_index = 1;
    assert_eq!(press(&mut app, KeyCode::Char('d')), Action::FetchDiff("a2".to_string()));
    assert_eq!(app.status_message, "");
}

#[test]
fn diff_of_a_group_without_files_and_of_a_committed_group() {
    let mut app = three_groups();
    app.active_panel = ActivePanel::Files;
    app.selected_index = 2;
    assert_eq!(handle_diff_action(&mut app), None);
    assert_eq!(app.status_message, "✗ No files in selected group");
    app.selected_index = 1;
    app.groups[1].mark_as_committed();
    assert_eq!(handle_diff_action(&mut app), Some("b1".to_string()));
    assert_eq!(app.status_message, "ℹ Viewing diff for already committed group");
}

#[test]
fn diff_results() {
    let mut app = three_groups();
    apply_diff_result(&mut app, "a1".to_string(), Ok("+line\n".to_string()));
    assert!(app.show_diff_viewer);
    assert_eq!(app.diff_file_path, "a1");
    assert_eq!(app.diff_content, "+line\n");
    assert_eq!(app.diff_scroll_offset, 0);

    let mut app = three_groups();
    apply_diff_result(&mut app, "a1".to_string(), Ok(" \n\t".to_string()));
    assert!(!app.show_diff_viewer);
    assert_eq!(app.status_message, "✗ No staged changes for this file");

    let mut app = three_groups();
    apply_diff_result(&mut app, "a1".to_string(), Ok(String::new()));
    assert_eq!(app.status_message, "✗ No staged changes for this file");

    let mut app = three_groups();
    apply_diff_result(&mut app, "a1".to_string(), Err("git diff failed: boom".to_string()));
    assert!(!app.show_diff_viewer);
    assert_eq!(app.status_message, "✗ Failed to get diff: git diff failed: boom");
}

#[test]
fn generation_needs_ai_mode_and_a_group_that_can_be_rewritten() {
    let mut app = three_groups();
    assert_eq!(handle_key_event(key(KeyCode::Char('a')), &mut app, false), Action::Stay);
    assert_eq!(app.status_message, "✗ AI mode not enabled. Use --ai or --copilot flag.");
    app.clear_status();
    assert_eq!(handle_key_event(key(KeyCode::Char('a')), &mut app, true), Action::Generate);
    assert_eq!(app.status_message, "🤖 Generating commit message with AI...");

    let mut app = three_groups();
    app.groups[0].mark_as_committed();
    assert!(!handle_ai_generate_action(&mut app, true));
    assert_eq!(app.status_message, "✗ Cannot edit already committed group");

    let mut none = AppState::new(vec![]);
    let before = none.status_message.clone();
    assert!(!handle_ai_generate_action(&mut none, true));
    assert_eq!(none.status_message, before);
}

#[test]
fn generation_results() {
    let mut app = three_groups();
    app.selected_index = 1;
    apply_generation_result(
        &mut app,
        Ok(("add parser".to_string(), Some("first\r\nsecond\n\nthird".to_string()))),
    );
    assert_eq!(app.groups[1].description, "add parser");
    assert_eq!(app.groups[1].body_lines, vec!["first", "second", "", "third"]);
    assert_eq!(app.groups[0].description, "a");
    assert_eq!(app.status_message, "✓ AI generated commit message successfully");

    apply_generation_result(&mut app, Ok(("only".to_string(), None)));
    assert_eq!(app.groups[1].description, "only");
    assert!(app.groups[1].body_lines.is_empty());

    apply_generation_result(&mut app, Err("timeout".to_string()));
    assert_eq!(app.groups[1].description, "only");
    assert_eq!(app.status_message, "✗ AI generation failed: timeout. Check GITHUB_TOKEN.");

    // a committed group is left alone
    app.groups[1].mark_as_committed();
    apply_generation_result(&mut app, Ok(("late".to_string(), None)));
    assert_eq!(app.groups[1].description, "only");
}

#[test]
fn committing_a_group_twice_is_refused_the_second_time() {
    let mut app = three_groups();
    assert_eq!(press(&mut app, KeyCode::Char('c')), Action::Commit(0));
    apply_commit_result(&mut app, 0, Ok(()));
    assert!(app.groups[0].is_committed());
    assert_eq!(app.status_message, "✓ Committed selected group successfully");
    app.clear_status();

    // the second request asks for no commit
    assert_eq!(press(&mut app, KeyCode::Char('c')), Action::Stay);
    assert_eq!(app.status_message, "✗ Group already committed");
    assert_eq!(handle_commit_action(&mut app), None);
}

#[test]
fn a_failed_commit_leaves_the_group_to_be_tried_again() {
    let mut app = three_groups();
    assert_eq!(handle_commit_action(&mut app), Some(0));
    apply_commit_result(&mut app, 0, Err("nothing to commit".to_string()));
    assert!(!app.groups[0].is_committed());
    assert_eq!(app.status_message, "✗ Commit failed: nothing to commit");
    app.clear_status();
    assert_eq!(handle_commit_action(&mut app), Some(0));

    let mut none = AppState::new(vec![]);
    assert_eq!(handle_commit_action(&mut none), None);
    // an index without a group marks nothing
    apply_commit_result(&mut none, 5, Ok(()));
    assert!(none.groups.is_empty());
}

#[test]
fn commit_all_stops_at_the_first_failure() {
    let mut app = three_groups();
    assert_eq!(press(&mut app, KeyCode::Char('C')), Action::CommitAll(0));
    let run = CommitRun { next: Some(0), committed: 0 };
    let run = commit_all_record(&mut app, run, Ok(()));
    assert_eq!(run, CommitRun { next: Some(1), committed: 1 });
    assert!(app.groups[0].is_committed());
    let run = commit_all_record(&mut app, run, Err("hook failed".to_string()));
    assert_eq!(run, CommitRun { next: None, committed: 1 });
    assert!(app.groups[0].is_committed());
    assert!(!app.groups[1].is_committed());
    assert!(!app.groups[2].is_committed());
    assert_eq!(app.status_message, "✗ Failed to commit group: hook failed");

    // a run that is over stays over
    let again = commit_all_record(&mut app, run, Ok(()));
    assert_eq!(again, CommitRun { next: None, committed: 1 });
    assert!(!app.groups[1].is_committed());

    // a later run resumes at the first uncommitted group
    app.clear_status();
    let run = commit_all_start(&mut app);
    assert_eq!(run, CommitRun { next: Some(1), committed: 0 });
    let run = commit_all_record(&mut app, run, Ok(()));
    assert_eq!(run, CommitRun { next: Some(2), committed: 1 });
    let run = commit_all_record(&mut app, run, Ok(()));
    assert_eq!(run, CommitRun { next: None, committed: 2 });
    assert!(app.groups.iter().all(|g| g.is_committed()));
    assert_eq!(app.status_message, "✓ Successfully committed 2 group(s)");
}

#[test]
fn commit_all_skips_committed_groups_and_reports_when_none_is_left() {
    let mut app = three_groups();
    app.groups[0].mark_as_committed();
    app.groups[1].mark_as_committed();
    let run = commit_all_start(&mut app);
    assert_eq!(run.next, Some(2));
    let run = commit_all_record(&mut app, run, Ok(()));
    assert_eq!(run, CommitRun { next: None, committed: 1 });
    assert_eq!(app.status_message, "✓ Successfully committed 1 group(s)");

    app.clear_status();
    assert_eq!(press(&mut app, KeyCode::Char('C')), Action::Stay);
    assert_eq!(app.status_message, "✗ All groups already committed");
    let run = commit_all_start(&mut app);
    assert_eq!(run, CommitRun { next: None, committed: 0 });

    let mut none = AppState::new(vec![]);
    assert_eq!(commit_all_start(&mut none).next, None);
    assert_eq!(none.status_message, "✗ All groups already committed");
}

#[test]
fn commit_all_record_ignores_a_run_that_is_not_at_an_open_group() {
    let mut app = three_groups();
    app.groups[1].mark_as_committed();
    let before = app.status_message.clone();
    let run = commit_all_record(&mut app, CommitRun { next: Some(1), committed: 4 }, Ok(()));
    assert_eq!(run, CommitRun { next: None, committed: 4 });
    let run = commit_all_record(&mut app, CommitRun { next: Some(9), committed: 0 }, Ok(()));
    assert_eq!(run, CommitRun { next: None, committed: 0 });
    assert_eq!(app.status_message, before);
    assert!(!app.groups[0].is_committed());
}

#[test]
fn new_state_points_at_the_first_group() {
    let app = AppState::new(vec![group("a", &["x"])]);
    assert_eq!(app.selected_index, 0);
    assert_eq!(app.selected_file_index, 0);
    assert_eq!(app.active_panel, ActivePanel::Groups);
    assert_eq!(app.status_message, "↑/↓ select, e edit, c commit group, C commit all, q quit");
    assert!(!app.popup_active);
    assert!(!app.show_diff_viewer);
    assert!(!app.show_editor_help);
    assert!(!app.editor.is_active());
    assert_eq!(app.selected_file().unwrap().path, "x");
    let f = ChangedFile::new("n".to_string(), INDEX_NEW);
    assert!(f.is_new());
}
