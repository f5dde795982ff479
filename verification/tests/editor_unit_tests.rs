use commit_wizard::editor::CommitMessageEditor;
use ratatui::crossterm::event::{Event as CrosstermEvent, KeyCode, KeyEvent, KeyModifiers};

#[test]
fn test_new_editor_with_text() {
    let editor = CommitMessageEditor::new("Hello\nWorld".to_string());
    assert!(!editor.is_active());
    assert_eq!(editor.text(), "Hello\nWorld");
}

#[test]
fn test_empty_editor() {
    let editor = CommitMessageEditor::empty();
    assert!(!editor.is_active());
    assert_eq!(editor.text(), "");
}

#[test]
fn test_activate_deactivate() {
    let mut editor = CommitMessageEditor::empty();
    assert!(!editor.is_active());

    editor.activate("test".to_string());
    assert!(editor.is_active());
    assert_eq!(editor.text(), "test");

    editor.deactivate();
    assert!(!editor.is_active());
}

#[test]
fn test_set_text() {
    let mut editor = CommitMessageEditor::empty();
    editor.set_text("New content".to_string());
    assert_eq!(editor.text(), "New content");
}

#[test]
fn test_cancel_restores_original() {
    let mut editor = CommitMessageEditor::new("original".to_string());
    editor.activate("original".to_string());

    // Simulate some edits by setting new state
    editor.set_text("modified".to_string());
    editor.activate("modified".to_string());

    editor.cancel();
    assert!(!editor.is_active());
    assert_eq!(editor.text(), "modified"); // State is restored to what was activated
}

#[test]
fn test_handle_event_ctrl_s() {
    let mut editor = CommitMessageEditor::new("test".to_string());
    editor.activate("test".to_string());

    let event = CrosstermEvent::Key(KeyEvent::new(KeyCode::Char('s'), KeyModifiers::CONTROL));
    let result = editor.handle_event(event);

    assert!(result.is_ok());
    assert!(!result.unwrap()); // Should return false to signal exit
    assert!(!editor.is_active());
}

#[test]
fn test_handle_event_ctrl_c() {
    let mut editor = CommitMessageEditor::new("original".to_string());
    editor.activate("original".to_string());

    let event = CrosstermEvent::Key(KeyEvent::new(KeyCode::Char('c'), KeyModifiers::CONTROL));
    let result = editor.handle_event(event);

    assert!(result.is_ok());
    assert!(!result.unwrap()); // Should return false to signal cancel
    assert!(!editor.is_active());
}

#[test]
fn test_handle_event_normal_char() {
    let mut editor = CommitMessageEditor::new("test".to_string());
    editor.activate("test".to_string());

    let event = CrosstermEvent::Key(KeyEvent::new(KeyCode::Char('a'), KeyModifiers::NONE));
    let result = editor.handle_event(event);

    assert!(result.is_ok());
    assert!(result.unwrap()); // Should return true to continue editing
    assert!(editor.is_active());
}

#[test]
fn test_state_access() {
    let mut editor = CommitMessageEditor::new("test".to_string());

    // Test immutable access
    let _state = editor.state();

    // Test mutable access
    let _state_mut = editor.state_mut();
}

#[test]
fn test_multiline_text() {
    let text = "Line 1\nLine 2\nLine 3";
    let editor = CommitMessageEditor::new(text.to_string());
    assert_eq!(editor.text(), text);
}

#[test]
fn test_empty_lines() {
    let text = "Line 1\n\nLine 3";
    let editor = CommitMessageEditor::new(text.to_string());
    assert_eq!(editor.text(), text);
}

#[test]
fn editor_keeps_trailing_line_feed_and_drops_carriage_return_before_line_feed() {
    let editor = CommitMessageEditor::new("a\n".to_string());
    assert_eq!(editor.text(), "a\n");
    let editor = CommitMessageEditor::new("a\r\nb\r".to_string());
    assert_eq!(editor.text(), "a\nb\r");
}

#[test]
fn editor_typing_then_cancel_restores_the_activated_text() {
    let mut editor = CommitMessageEditor::empty();
    editor.activate("fix: typo".to_string());
    let insert = CrosstermEvent::Key(KeyEvent::new(KeyCode::Char('i'), KeyModifiers::NONE));
    assert!(editor.handle_event(insert).unwrap());
    let letter = CrosstermEvent::Key(KeyEvent::new(KeyCode::Char('x'), KeyModifiers::NONE));
    assert!(editor.handle_event(letter).unwrap());
    assert_eq!(editor.text(), "xfix: typo");
    let cancel = CrosstermEvent::Key(KeyEvent::new(KeyCode::Char('c'), KeyModifiers::CONTROL));
    assert!(!editor.handle_event(cancel).unwrap());
    assert_eq!(editor.text(), "fix: typo");
    assert!(!editor.is_active());
}

#[test]
fn editor_typing_then_save_keeps_the_edited_text() {
    let mut editor = CommitMessageEditor::empty();
    editor.activate("fix: typo".to_string());
    let insert = CrosstermEvent::Key(KeyEvent::new(KeyCode::Char('i'), KeyModifiers::NONE));
    assert!(editor.handle_event(insert).unwrap());
    let letter = CrosstermEvent::Key(KeyEvent::new(KeyCode::Char('x'), KeyModifiers::NONE));
    assert!(editor.handle_event(letter).unwrap());
    let save = CrosstermEvent::Key(KeyEvent::new(KeyCode::Char('s'), KeyModifiers::CONTROL));
    assert!(!editor.handle_event(save).unwrap());
    assert_eq!(editor.text(), "xfix: typo");
    // a cancel after the save goes back to the saved text
    editor.cancel();
    assert_eq!(editor.text(), "xfix: typo");
}

#[test]
fn editor_control_with_another_modifier_is_forwarded() {
    let mut editor = CommitMessageEditor::empty();
    editor.activate("text".to_string());
    let event = CrosstermEvent::Key(KeyEvent::new(
        KeyCode::Char('s'),
        KeyModifiers::CONTROL | KeyModifiers::SHIFT,
    ));
    assert!(editor.handle_event(event).unwrap());
    assert!(editor.is_active());
    let resize = CrosstermEvent::Resize(80, 24);
    assert!(editor.handle_event(resize).unwrap());
    assert!(editor.is_active());
}

#[test]
fn key_bindings_that_the_caller_leaves_are_the_editors() {
    let i = || CrosstermEvent::Key(KeyEvent::new(KeyCode::Char('i'), KeyModifiers::NONE));
    let x = || CrosstermEvent::Key(KeyEvent::new(KeyCode::Char('x'), KeyModifiers::NONE));

    let mut vim = CommitMessageEditor::new("abc".to_string());
    vim.activate("abc".to_string());
    assert!(vim.handle_event(i()).unwrap());
    assert!(vim.handle_event(x()).unwrap());
    assert_eq!(vim.text(), "xabc");

    // with modeless bindings `i` opens no insert mode
    let mut modeless = CommitMessageEditor::new("abc".to_string());
    modeless.activate("abc".to_string());
    *modeless.event_handler_mut() = edtui::EditorEventHandler::emacs_mode();
    assert!(modeless.handle_event(i()).unwrap());
    assert!(modeless.handle_event(x()).unwrap());
    assert_eq!(modeless.text(), "abc");
    assert!(modeless.is_active());

    // and in insert mode they type at once
    modeless.state_mut().mode = edtui::EditorMode::Insert;
    assert!(modeless.handle_event(x()).unwrap());
    assert_eq!(modeless.text(), "xabc");
}
