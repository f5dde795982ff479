//! Integrated text editor for commit message editing.
//!
//! The editor wraps the text buffer of the `edtui` widget with
//! activate / save / cancel semantics and translates key events.

use crate::text::{join, split_lines};
use edtui::{EditorEventHandler, EditorState, Lines};
use ratatui::crossterm::event::{Event as CrosstermEvent, KeyCode, KeyEvent};
use vstd::prelude::*;

verus! {

/// The text buffer of the widget, with its cursor and editing mode.
#[verifier::external_type_specification]
#[verifier::external_body]
pub struct ExEditorState(EditorState);

/// The widget's table of key bindings.
#[verifier::external_type_specification]
#[verifier::external_body]
pub struct ExEditorEventHandler(EditorEventHandler);

/// An input event of the terminal.
#[verifier::external_type_specification]
#[verifier::external_body]
pub struct ExCrosstermEvent(CrosstermEvent);

/// A key event of the terminal.
#[verifier::external_type_specification]
#[verifier::external_body]
pub struct ExKeyEvent(KeyEvent);

/// The characters that a buffer holds: its rows in order, with one line feed
/// between each two neighbours.
pub uninterp spec fn buffer_text(state: EditorState) -> Seq<char>;

/// The rows that a buffer gets for a text: the lines of the text, and one
/// more, empty row if the text ends with a line feed.
pub open spec fn buffer_rows(text: Seq<char>) -> Seq<Seq<char>> {
    if text.len() > 0 && text.last() == '\n' {
        split_lines(text).push(Seq::empty())
    } else {
        split_lines(text)
    }
}

/// The text as a buffer holds it: the same characters, but for a carriage
/// return before a line feed, which is dropped.
pub open spec fn buffered(text: Seq<char>) -> Seq<char> {
    join(buffer_rows(text), "\n"@)
}

/// A buffer holds a text without carriage returns exactly as it is.
pub proof fn lemma_buffer_keeps_text(text: Seq<char>)
    requires
        forall|i: int| 0 <= i < text.len() ==> #[trigger] text[i] != '\r',
    ensures
        buffered(text) == text,
{
    crate::text::lemma_lines_join_back(text);
}

/// The keys that the engine tells apart.
#[derive(Debug, Clone, Copy, PartialEq, Eq, Structural)]
pub enum Key {
    /// A character key
    Char(char),
    /// Escape
    Esc,
    /// Enter
    Enter,
    /// Tab
    Tab,
    /// Shift+Tab as terminals report it
    BackTab,
    /// Arrow up
    Up,
    /// Arrow down
    Down,
    /// Any other key
    Other,
}

/// Modifier flag: shift.
pub const SHIFT: u8 = 1;

/// Modifier flag: control.
pub const CONTROL: u8 = 2;

/// A key with the modifiers held while it was pressed.
#[derive(Debug, Clone, Copy, PartialEq, Eq, Structural)]
pub struct KeyPress {
    /// The key
    pub key: Key,
    /// The modifier flags, one bit each
    pub modifiers: u8,
}

/// What the editor does with an event.
#[derive(Debug, Clone, Copy, PartialEq, Eq, Structural)]
pub enum EditorCommand {
    /// Keep the buffer as the new original and close
    Save,
    /// Restore the original and close
    Cancel,
    /// Hand the event to the widget and go on editing
    Forward,
}

/// The command that a key press stands for: Ctrl+S saves, Ctrl+C cancels,
/// both with no other modifier; everything else, and an event that is no
/// key press, is forwarded.
pub open spec fn command_of(press: Option<KeyPress>) -> EditorCommand {
    match press {
        Some(p) => if p.key == Key::Char('s') && p.modifiers == CONTROL {
            EditorCommand::Save
        } else if p.key == Key::Char('c') && p.modifiers == CONTROL {
            EditorCommand::Cancel
        } else {
            EditorCommand::Forward
        },
        None => EditorCommand::Forward,
    }
}

/// What a key press leaves of the editor, and whether editing goes on. A
/// save closes the editor with its text as the new original; a cancel
/// closes it with the original as its text; any other event, and one that
/// is no key press, leaves the editor as active as it was, with the same
/// original, and editing goes on.
pub open spec fn press_outcome(
    pre: CommitMessageEditor,
    post: CommitMessageEditor,
    press: Option<KeyPress>,
    go_on: bool,
) -> bool {
    match command_of(press) {
        EditorCommand::Save => {
            &&& !go_on
            &&& !post.active()
            &&& post.text_spec() == buffered(pre.text_spec())
            &&& post.original() == post.text_spec()
        },
        EditorCommand::Cancel => {
            &&& !go_on
            &&& !post.active()
            &&& post.text_spec() == buffered(pre.original())
            &&& post.original() == pre.original()
        },
        EditorCommand::Forward => {
            &&& go_on
            &&& post.active() == pre.active()
            &&& post.original() == pre.original()
        },
    }
}

/// The failure of event handling. No event makes the editor fail; the type
/// keeps the place of one.
#[derive(Debug, Clone, Copy, PartialEq, Eq, Structural)]
pub struct EditorError {}

/// `EditorState::new` on `Lines::from`: a fresh buffer whose rows are the
/// lines of `text`, plus an empty row if `text` ends with a line feed.
#[verifier::external_body]
fn buffer_from(text: &str) -> (state: EditorState)
    ensures
        buffer_text(state) == buffered(text@),
{
    EditorState::new(Lines::from(text))
}

/// `String::from` on the rows of a buffer: the rows joined by line feeds.
#[verifier::external_body]
fn buffer_string(state: &EditorState) -> (text: String)
    ensures
        text@ == buffer_text(*state),
{
    String::from(state.lines.clone())
}

/// `EditorEventHandler::default`: the widget's vim-style key bindings.
#[verifier::external_body]
fn default_handler() -> EditorEventHandler {
    EditorEventHandler::default()
}

/// `EditorEventHandler::on_event`: lets the widget act on the event. What
/// the buffer holds afterwards is the widget's business.
#[verifier::external_body]
fn forward(handler: &mut EditorEventHandler, event: CrosstermEvent, state: &mut EditorState) {
    handler.on_event(event, state)
}

/// The derived clone of a buffer: a buffer with the same rows.
pub assume_specification[ <EditorState as Clone>::clone ](state: &EditorState) -> (copy:
    EditorState)
    ensures
        buffer_text(copy) == buffer_text(*state),
;

/// The derived clone of the key bindings.
pub assume_specification[ <EditorEventHandler as Clone>::clone ](
    handler: &EditorEventHandler,
) -> EditorEventHandler;

/// The key press that a key event is: its key, as far as the engine tells
/// keys apart, and the bits of its modifiers.
pub uninterp spec fn press_of(key: KeyEvent) -> KeyPress;

/// The key event that a terminal event holds; none if it is no key event.
pub uninterp spec fn key_in(event: CrosstermEvent) -> Option<KeyEvent>;

/// The key press that a terminal event is; none if it is no key event.
pub open spec fn pressed(event: CrosstermEvent) -> Option<KeyPress> {
    match key_in(event) {
        Some(key) => Some(press_of(key)),
        None => None,
    }
}

/// The fields `code` and `modifiers` of a key event, and
/// `KeyModifiers::bits`: the key and the bits of its modifiers.
#[verifier::external_body]
pub(crate) fn key_press_of(key: &KeyEvent) -> (r: KeyPress)
    ensures
        r == press_of(*key),
{
    let code = match key.code {
        KeyCode::Char(c) => Key::Char(c),
        KeyCode::Esc => Key::Esc,
        KeyCode::Enter => Key::Enter,
        KeyCode::Tab => Key::Tab,
        KeyCode::BackTab => Key::BackTab,
        KeyCode::Up => Key::Up,
        KeyCode::Down => Key::Down,
        _ => Key::Other,
    };
    KeyPress { key: code, modifiers: key.modifiers.bits() }
}

/// The variant `Event::Key`: the key event inside an event, if it is one.
#[verifier::external_body]
fn key_event_of(event: &CrosstermEvent) -> (r: Option<KeyEvent>)
    ensures
        r == key_in(*event),
{
    match event {
        CrosstermEvent::Key(key) => Some(*key),
        _ => None,
    }
}

/// Editor for commit messages with vim-style keybindings.
#[derive(Clone)]
pub struct CommitMessageEditor {
    /// The widget's buffer and cursor
    state: EditorState,
    /// The widget's key bindings
    event_handler: EditorEventHandler,
    /// Text to go back to on cancel
    original_text: String,
    /// Whether the editor is currently active
    active: bool,
}

impl CommitMessageEditor {
    /// The text in the buffer.
    pub closed spec fn text_spec(&self) -> Seq<char> {
        buffer_text(self.state)
    }

    /// The text that a cancel restores.
    pub closed spec fn original(&self) -> Seq<char> {
        self.original_text@
    }

    /// Whether the editor is active.
    pub closed spec fn active(&self) -> bool {
        self.active
    }

    /// The key bindings with which the widget reads the events.
    pub closed spec fn key_bindings(&self) -> EditorEventHandler {
        self.event_handler
    }

    /// Creates a new, inactive editor with the given initial text.
    pub fn new(initial_text: String) -> (r: Self)
        ensures
            !r.active(),
            r.original() == initial_text@,
            r.text_spec() == buffered(initial_text@),
    {
        let state = buffer_from(initial_text.as_str());
        let event_handler = default_handler();
        Self { state, event_handler, original_text: initial_text, active: false }
    }

    /// Creates an empty editor.
    pub fn empty() -> (r: Self)
        ensures
            !r.active(),
            r.original() == Seq::<char>::empty(),
            r.text_spec() == buffered(Seq::<char>::empty()),
    {
        Self::new(String::new())
    }

    /// Returns a reference to the editor state for rendering.
    pub fn state(&self) -> (r: &EditorState)
        ensures
            buffer_text(*r) == self.text_spec(),
    {
        &self.state
    }

    /// Returns a mutable reference to the editor state for updates. What
    /// the caller leaves in the buffer is the editor's text afterwards.
    pub fn state_mut(&mut self) -> (r: &mut EditorState)
        ensures
            buffer_text(*r) == old(self).text_spec(),
            final(self).text_spec() == buffer_text(*final(r)),
            final(self).active() == old(self).active(),
            final(self).original() == old(self).original(),
    {
        &mut self.state
    }

    /// Returns a mutable reference to the key bindings: what the caller
    /// leaves there are the editor's key bindings afterwards. The buffer,
    /// the original and the activation stay as they are.
    pub fn event_handler_mut(&mut self) -> (r: &mut EditorEventHandler)
        ensures
            *r == old(self).key_bindings(),
            final(self).key_bindings() == *final(r),
            final(self).text_spec() == old(self).text_spec(),
            final(self).active() == old(self).active(),
            final(self).original() == old(self).original(),
    {
        &mut self.event_handler
    }

    /// Gets the current text content.
    pub fn text(&self) -> (r: String)
        ensures
            r@ == self.text_spec(),
    {
        buffer_string(&self.state)
    }

    /// Sets the text content, which also becomes the text to go back to.
    pub fn set_text(&mut self, text: String)
        ensures
            final(self).text_spec() == buffered(text@),
            final(self).original() == text@,
            final(self).active() == old(self).active(),
    {
        self.state = buffer_from(text.as_str());
        self.original_text = text;
    }

    /// Returns whether the editor is active.
    pub fn is_active(&self) -> (b: bool)
        ensures
            b == self.active(),
    {
        self.active
    }

    /// Activates the editor with the given text: it is both the live buffer
    /// and the text that a cancel restores.
    pub fn activate(&mut self, text: String)
        ensures
            final(self).active(),
            final(self).text_spec() == buffered(text@),
            final(self).original() == text@,
    {
        self.state = buffer_from(text.as_str());
        self.original_text = text;
        self.active = true;
    }

    /// Deactivates the editor.
    pub fn deactivate(&mut self)
        ensures
            !final(self).active(),
            final(self).text_spec() == old(self).text_spec(),
            final(self).original() == old(self).original(),
    {
        self.active = false;
    }

    /// Cancels editing: restores the original text and deactivates.
    pub fn cancel(&mut self)
        ensures
            !final(self).active(),
            final(self).text_spec() == buffered(old(self).original()),
            final(self).original() == old(self).original(),
    {
        self.state = buffer_from(self.original_text.as_str());
        self.deactivate();
    }

    /// Saves: the text of the buffer becomes the original, and the editor
    /// deactivates.
    pub fn save(&mut self)
        ensures
            !final(self).active(),
            final(self).text_spec() == buffered(old(self).text_spec()),
            final(self).original() == final(self).text_spec(),
    {
        let current = self.text();
        self.state = buffer_from(current.as_str());
        self.original_text = self.text();
        self.deactivate();
    }

    /// Acts on an event whose key press, if it is one, is `press`. Returns
    /// whether editing goes on: a save or a cancel closes the editor, any
    /// other event goes to the widget and leaves the editor as active as it
    /// was, with the same original.
    pub fn handle_press(&mut self, press: Option<KeyPress>, event: CrosstermEvent) -> (go_on: bool)
        ensures
            go_on == (command_of(press) == EditorCommand::Forward),
            command_of(press) == EditorCommand::Save ==> {
                &&& !final(self).active()
                &&& final(self).text_spec() == buffered(old(self).text_spec())
                &&& final(self).original() == final(self).text_spec()
            },
            command_of(press) == EditorCommand::Cancel ==> {
                &&& !final(self).active()
                &&& final(self).text_spec() == buffered(old(self).original())
                &&& final(self).original() == old(self).original()
            },
            command_of(press) == EditorCommand::Forward ==> {
                &&& final(self).active() == old(self).active()
                &&& final(self).original() == old(self).original()
            },
    {
        match press {
            Some(p) => {
                if p.modifiers == CONTROL {
                    match p.key {
                        Key::Char(c) => {
                            if c == 's' {
                                self.save();
                                return false;
                            }
                            if c == 'c' {
                                self.cancel();
                                return false;
                            }
                        },
                        _ => {},
                    }
                }
            },
            None => {},
        }
        forward(&mut self.event_handler, event, &mut self.state);
        true
    }

    /// Handles a terminal event and returns whether editing goes on: the
    /// event is handled as the key press that it is, or as no key press.
    /// The editor never fails. Where it stops, it is inactive and its text is
    /// the original: the saved buffer or the restored text. Where it goes
    /// on, it is as active as before and the original is unchanged.
    pub fn handle_event(&mut self, event: CrosstermEvent) -> (r: Result<bool, EditorError>)
        ensures
            r is Ok,
            press_outcome(*old(self), *final(self), pressed(event), r->Ok_0),
            r == Ok::<bool, EditorError>(false) ==> {
                &&& !final(self).active()
                &&& {
                    ||| final(self).original() == final(self).text_spec()
                    ||| {
                        &&& final(self).text_spec() == buffered(old(self).original())
                        &&& final(self).original() == old(self).original()
                    }
                }
            },
            r == Ok::<bool, EditorError>(true) ==> {
                &&& final(self).active() == old(self).active()
                &&& final(self).original() == old(self).original()
            },
    {
        let press: Option<KeyPress> = match key_event_of(&event) {
            Some(key) => Some(key_press_of(&key)),
            None => None,
        };
        Ok(self.handle_press(press, event))
    }
}

} // verus!
