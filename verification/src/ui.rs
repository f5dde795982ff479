//! The decisions of the terminal interface: which overlay owns a key, what a
//! key does to the state, and what the actions against the repository and
//! the assistant leave behind. The loop that draws, reads keys and performs
//! the requested work calls these functions and hands the outcomes back.

use crate::editor::{
    buffered, command_of, key_in, key_press_of, press_of, EditorCommand, Key, KeyPress, CONTROL,
    SHIFT,
};
use crate::text::{
    append, append_str, chars_of, decimal, decimal_of, lines_of, split_lines, string_of,
    string_views, trim, trimmed, views,
};
use crate::types::{group_at, ActivePanel, AppState, ChangeGroup};
use ratatui::crossterm::event::{Event as CrosstermEvent, KeyEvent};
use vstd::prelude::*;

verus! {

/// The layers that can own the keys, from the highest priority down.
#[derive(Debug, Clone, Copy, PartialEq, Eq, Structural)]
pub enum Overlay {
    /// The help on the editor's keys
    EditorHelp,
    /// The diff viewer
    DiffViewer,
    /// The embedded editor
    Editor,
    /// The status popup
    Popup,
    /// No overlay: the panels
    Panels,
}

/// What the loop has to do after a key.
#[derive(Debug, Clone, PartialEq, Eq)]
pub enum Action {
    /// Nothing: draw and wait for the next key
    Stay,
    /// Leave the interface
    Quit,
    /// Fetch the diff of the file at this path and report it with
    /// `apply_diff_result`
    FetchDiff(String),
    /// Ask the assistant for a message for the selected group and report
    /// the answer with `apply_generation_result`
    Generate,
    /// Commit the group at this index and report the outcome with
    /// `apply_commit_result`
    Commit(usize),
    /// Commit the group at this index as the first of a run over all
    /// groups, and report the outcome with `commit_all_record`
    CommitAll(usize),
}

/// What a key means to the panels.
#[derive(Debug, Clone, Copy, PartialEq, Eq, Structural)]
pub enum Command {
    /// Leave the interface
    Quit,
    /// Activate the next panel
    NextPanel,
    /// Activate the previous panel
    PreviousPanel,
    /// Move down in the active panel
    Down,
    /// Move up in the active panel
    Up,
    /// Edit the message of the selected group
    Edit,
    /// Show the diff of the selected file
    Diff,
    /// Let the assistant write the message of the selected group
    Generate,
    /// Commit the selected group
    Commit,
    /// Commit all groups
    CommitAll,
    /// Clear the status message
    ClearStatus,
    /// No meaning
    Nothing,
}

/// What a key means to the status popup and to the diff viewer.
#[derive(Debug, Clone, Copy, PartialEq, Eq, Structural)]
pub enum OverlayCommand {
    /// Close the overlay
    Close,
    /// Scroll one line down
    ScrollDown,
    /// Scroll one line up
    ScrollUp,
    /// Swallow the key
    Swallow,
}

/// The overlay that owns the keys: the help before the diff viewer, before
/// the editor, before the popup; the panels where none is open.
pub open spec fn owner_of(app: AppState) -> Overlay {
    if app.show_editor_help {
        Overlay::EditorHelp
    } else if app.show_diff_viewer {
        Overlay::DiffViewer
    } else if app.editor.active() {
        Overlay::Editor
    } else if app.popup_active {
        Overlay::Popup
    } else {
        Overlay::Panels
    }
}

/// Tells which overlay owns the keys.
pub fn owner(app: &AppState) -> (r: Overlay)
    ensures
        r == owner_of(*app),
{
    if app.show_editor_help {
        Overlay::EditorHelp
    } else if app.show_diff_viewer {
        Overlay::DiffViewer
    } else if app.editor.is_active() {
        Overlay::Editor
    } else if app.popup_active {
        Overlay::Popup
    } else {
        Overlay::Panels
    }
}

/// The meaning of a key to the panels.
pub open spec fn command_for(press: KeyPress) -> Command {
    match press.key {
        Key::Esc => Command::Quit,
        Key::Tab => if press.modifiers & SHIFT == SHIFT {
            Command::PreviousPanel
        } else {
            Command::NextPanel
        },
        Key::BackTab => Command::PreviousPanel,
        Key::Down => Command::Down,
        Key::Up => Command::Up,
        Key::Char(c) => if c == 'q' {
            Command::Quit
        } else if c == 'j' {
            Command::Down
        } else if c == 'k' {
            Command::Up
        } else if c == 'e' {
            Command::Edit
        } else if c == 'd' {
            Command::Diff
        } else if c == 'a' {
            Command::Generate
        } else if c == 'c' {
            Command::Commit
        } else if c == 'C' && press.modifiers == 0 {
            Command::CommitAll
        } else if c == 'l' && press.modifiers & CONTROL == CONTROL {
            Command::ClearStatus
        } else {
            Command::Nothing
        },
        _ => Command::Nothing,
    }
}

/// Tells what a key means to the panels.
pub fn panel_command(press: KeyPress) -> (r: Command)
    ensures
        r == command_for(press),
{
    match press.key {
        Key::Esc => Command::Quit,
        Key::Tab => if press.modifiers & SHIFT == SHIFT {
            Command::PreviousPanel
        } else {
            Command::NextPanel
        },
        Key::BackTab => Command::PreviousPanel,
        Key::Down => Command::Down,
        Key::Up => Command::Up,
        Key::Char(c) => if c == 'q' {
            Command::Quit
        } else if c == 'j' {
            Command::Down
        } else if c == 'k' {
            Command::Up
        } else if c == 'e' {
            Command::Edit
        } else if c == 'd' {
            Command::Diff
        } else if c == 'a' {
            Command::Generate
        } else if c == 'c' {
            Command::Commit
        } else if c == 'C' && press.modifiers == 0 {
            Command::CommitAll
        } else if c == 'l' && press.modifiers & CONTROL == CONTROL {
            Command::ClearStatus
        } else {
            Command::Nothing
        },
        _ => Command::Nothing,
    }
}

/// The meaning of a key to the diff viewer: Esc closes, the arrows and `j`,
/// `k` scroll, everything else is swallowed.
pub open spec fn diff_command_for(press: KeyPress) -> OverlayCommand {
    match press.key {
        Key::Esc => OverlayCommand::Close,
        Key::Down => OverlayCommand::ScrollDown,
        Key::Up => OverlayCommand::ScrollUp,
        Key::Char(c) => if c == 'j' {
            OverlayCommand::ScrollDown
        } else if c == 'k' {
            OverlayCommand::ScrollUp
        } else {
            OverlayCommand::Swallow
        },
        _ => OverlayCommand::Swallow,
    }
}

/// The meaning of a key to the status popup: as to the diff viewer, and
/// Enter closes too.
pub open spec fn popup_command_for(press: KeyPress) -> OverlayCommand {
    if press.key == Key::Enter {
        OverlayCommand::Close
    } else {
        diff_command_for(press)
    }
}

/// The key closes the help on the editor's keys: Esc, or the question mark
/// that opened it.
pub open spec fn closes_help(press: KeyPress) -> bool {
    press.key == Key::Esc || press.key == Key::Char('?')
}

/// The key opens the help from the editor: a question mark without a
/// modifier.
pub open spec fn opens_help(press: KeyPress) -> bool {
    press.key == Key::Char('?') && press.modifiers == 0
}

fn diff_command(press: KeyPress) -> (r: OverlayCommand)
    ensures
        r == diff_command_for(press),
{
    match press.key {
        Key::Esc => OverlayCommand::Close,
        Key::Down => OverlayCommand::ScrollDown,
        Key::Up => OverlayCommand::ScrollUp,
        Key::Char(c) => if c == 'j' {
            OverlayCommand::ScrollDown
        } else if c == 'k' {
            OverlayCommand::ScrollUp
        } else {
            OverlayCommand::Swallow
        },
        _ => OverlayCommand::Swallow,
    }
}

fn popup_command(press: KeyPress) -> (r: OverlayCommand)
    ensures
        r == popup_command_for(press),
{
    match press.key {
        Key::Enter => OverlayCommand::Close,
        _ => diff_command(press),
    }
}

/// `post` is `pre` with this status message in an open popup.
pub open spec fn status_set(pre: AppState, post: AppState, message: Seq<char>) -> bool {
    &&& post.status_message@ == message
    &&& post == (AppState {
        status_message: post.status_message,
        popup_active: true,
        popup_scroll_offset: 0,
        ..pre
    })
}

/// `post` is `pre` but for the groups.
pub open spec fn only_groups_differ(pre: AppState, post: AppState) -> bool {
    post == (AppState { groups: post.groups, ..pre })
}

/// What the edit action leaves: a refusal in the status popup where the
/// selected group is committed; else the editor active on the full message
/// of the selected group, or on no text where no group is selected.
pub open spec fn edit_outcome(pre: AppState, post: AppState) -> bool {
    match pre.selected() {
        Some(g) => if g.committed {
            status_set(pre, post, "✗ Cannot edit already committed group"@)
        } else {
            &&& post == (AppState { editor: post.editor, ..pre })
            &&& post.editor.active()
            &&& post.editor.original() == g.message_spec()
            &&& post.editor.text_spec() == buffered(g.message_spec())
        },
        None => {
            &&& post == (AppState { editor: post.editor, ..pre })
            &&& post.editor.active()
            &&& post.editor.original() == Seq::<char>::empty()
            &&& post.editor.text_spec() == buffered(Seq::<char>::empty())
        },
    }
}

/// Handles the edit action: refuses for a committed group, else activates
/// the embedded editor with the group's current full message.
pub fn handle_edit_action(app: &mut AppState)
    ensures
        edit_outcome(*old(app), *final(app)),
{
    let message: String = match app.selected_group() {
        Some(group) => {
            if group.is_committed() {
                app.set_status("✗ Cannot edit already committed group");
                return ;
            }
            group.full_message()
        },
        None => String::new(),
    };
    app.editor.activate(message);
}

/// The path that the diff action asks a diff for, if it asks: the Files
/// panel is active and the selected group has a selected file.
pub open spec fn diff_target(app: AppState) -> Option<Seq<char>> {
    if app.active_panel != ActivePanel::Files {
        None
    } else {
        match app.selected() {
            Some(g) => if app.selected_file_index < g.files@.len() {
                Some(g.files@[app.selected_file_index as int].path@)
            } else {
                None
            },
            None => None,
        }
    }
}

/// The status message that the diff action leaves before any diff is
/// fetched, if it leaves one: a hint outside the Files panel; a complaint
/// where there is no file; a notice where the group is committed.
pub open spec fn diff_notice(app: AppState) -> Option<Seq<char>> {
    if app.active_panel != ActivePanel::Files {
        Some("ℹ Switch to Files panel (Tab) to view diffs"@)
    } else if diff_target(app) is None {
        Some("✗ No files in selected group"@)
    } else if app.selected() matches Some(g) && g.committed {
        Some("ℹ Viewing diff for already committed group"@)
    } else {
        None
    }
}

/// Handles the diff action up to the fetching of the diff: returns the path
/// of the file to fetch the diff of, or sets a status message that tells
/// why there is none. Viewing the diff of a committed group is allowed, with
/// a notice.
pub fn handle_diff_action(app: &mut AppState) -> (r: Option<String>)
    ensures
        crate::types::opt_view(r) == diff_target(*old(app)),
        match diff_notice(*old(app)) {
            Some(m) => status_set(*old(app), *final(app), m),
            None => *final(app) == *old(app),
        },
{
    if app.active_panel != ActivePanel::Files {
        app.set_status("ℹ Switch to Files panel (Tab) to view diffs");
        return None;
    }
    let path: String = match app.selected_file() {
        Some(file) => file.path.clone(),
        None => {
            app.set_status("✗ No files in selected group");
            return None;
        },
    };
    let is_committed: bool = match app.selected_group() {
        Some(group) => group.is_committed(),
        None => false,
    };
    if is_committed {
        app.set_status("ℹ Viewing diff for already committed group");
    }
    Some(path)
}

/// What a fetched diff leaves: the viewer open on it; where it is blank, a
/// complaint instead; where fetching failed, the failure.
pub open spec fn diff_outcome(
    pre: AppState,
    post: AppState,
    path: Seq<char>,
    result: Result<Seq<char>, Seq<char>>,
) -> bool {
    match result {
        Ok(content) => if trim(content).len() == 0 {
            status_set(pre, post, "✗ No staged changes for this file"@)
        } else {
            &&& post.diff_file_path@ == path
            &&& post.diff_content@ == content
            &&& post == (AppState {
                show_diff_viewer: true,
                diff_file_path: post.diff_file_path,
                diff_content: post.diff_content,
                diff_scroll_offset: 0,
                ..pre
            })
        },
        Err(e) => status_set(pre, post, "✗ Failed to get diff: "@ + e),
    }
}

/// The views of the two sides of a result of strings.
pub open spec fn result_view(result: Result<String, String>) -> Result<Seq<char>, Seq<char>> {
    match result {
        Ok(s) => Ok(s@),
        Err(e) => Err(e@),
    }
}

/// Takes the diff that was fetched for the file at `path`: opens the viewer
/// if the diff is not blank, reports that nothing is staged if it is, and
/// reports the failure if fetching failed.
pub fn apply_diff_result(app: &mut AppState, path: String, result: Result<String, String>)
    ensures
        final(app).groups == old(app).groups,
        diff_outcome(*old(app), *final(app), path@, result_view(result)),
{
    match result {
        Ok(content) => {
            let chars: Vec<char> = chars_of(content.as_str());
            let t: Vec<char> = trimmed(&chars);
            if t.len() == 0 {
                app.set_status("✗ No staged changes for this file");
            } else {
                app.show_diff(path, content);
            }
        },
        Err(e) => {
            let mut message: Vec<char> = chars_of("✗ Failed to get diff: ");
            append_str(&mut message, e.as_str());
            let text: String = string_of(&message);
            app.set_status(text.as_str());
        },
    }
}

/// The group can take a new message: it exists and is not committed.
pub open spec fn can_rewrite(app: AppState) -> bool {
    app.selected() matches Some(g) && !g.committed
}

/// Handles the generate action up to the asking of the assistant. Returns
/// whether to ask: AI mode is on and the selected group can take a new
/// message. Where it returns true the status tells that the assistant is
/// at work; without AI mode, and for a committed group, it tells why not;
/// without a selected group nothing happens.
pub fn handle_ai_generate_action(app: &mut AppState, ai_enabled: bool) -> (ask: bool)
    ensures
        ask == (ai_enabled && can_rewrite(*old(app))),
        if !ai_enabled {
            status_set(
                *old(app),
                *final(app),
                "✗ AI mode not enabled. Use --ai or --copilot flag."@,
            )
        } else {
            match old(app).selected() {
                Some(g) => if g.committed {
                    status_set(*old(app), *final(app), "✗ Cannot edit already committed group"@)
                } else {
                    status_set(*old(app), *final(app), "🤖 Generating commit message with AI..."@)
                },
                None => *final(app) == *old(app),
            }
        },
{
    if !ai_enabled {
        app.set_status("✗ AI mode not enabled. Use --ai or --copilot flag.");
        return false;
    }
    let committed: bool = match app.selected_group() {
        Some(group) => group.is_committed(),
        None => {
            return false;
        },
    };
    if committed {
        app.set_status("✗ Cannot edit already committed group");
        return false;
    }
    app.set_status("🤖 Generating commit message with AI...");
    true
}

/// The body lines in the body of an answer: its lines; none without a body.
pub open spec fn answer_lines(body: Option<Seq<char>>) -> Seq<Seq<char>> {
    match body {
        Some(b) => split_lines(b),
        None => Seq::empty(),
    }
}

/// The group with the description and the body of an answer.
pub open spec fn rewritten(g: ChangeGroup, post: ChangeGroup, description: Seq<char>, body: Option<
    Seq<char>,
>) -> bool {
    &&& post.description@ == description
    &&& string_views(post.body_lines@) == answer_lines(body)
    &&& post == (ChangeGroup { description: post.description, body_lines: post.body_lines, ..g })
}

/// What the assistant's answer leaves: on success the selected group, if it
/// can take a new message, has the answer's description and the lines of
/// its body, and the status tells the success; on failure the groups are
/// as before and the status tells the failure.
pub open spec fn generation_outcome(
    pre: AppState,
    post: AppState,
    result: Result<(Seq<char>, Option<Seq<char>>), Seq<char>>,
) -> bool {
    match result {
        Ok(answer) => {
            let mid = AppState { groups: post.groups, ..pre };
            &&& status_set(mid, post, "✓ AI generated commit message successfully"@)
            &&& post.groups@.len() == pre.groups@.len()
            &&& forall|i: int|
                0 <= i < pre.groups@.len() && !(i == pre.selected_index && can_rewrite(pre))
                    ==> #[trigger] post.groups@[i] == pre.groups@[i]
            &&& can_rewrite(pre) ==> rewritten(
                pre.groups@[pre.selected_index as int],
                post.groups@[pre.selected_index as int],
                answer.0,
                answer.1,
            )
        },
        Err(e) => status_set(pre, post, "✗ AI generation failed: "@ + e + ". Check GITHUB_TOKEN."@),
    }
}

/// The views of an answer or of its failure.
pub open spec fn answer_view(result: Result<(String, Option<String>), String>) -> Result<
    (Seq<char>, Option<Seq<char>>),
    Seq<char>,
> {
    match result {
        Ok(answer) => Ok((answer.0@, crate::types::opt_view(answer.1))),
        Err(e) => Err(e@),
    }
}

/// The strings of these lines.
fn strings_of(lines: &Vec<Vec<char>>) -> (r: Vec<String>)
    ensures
        string_views(r@) == views(lines@),
{
    let mut out: Vec<String> = Vec::new();
    let mut i: usize = 0;
    while i < lines.len()
        invariant
            i <= lines.len(),
            out@.len() == i,
            forall|k: int| 0 <= k < i ==> (#[trigger] out@[k])@ == lines@[k]@,
        decreases lines.len() - i,
    {
        out.push(string_of(&lines[i]));
        i += 1;
    }
    assert(string_views(out@) =~= views(lines@));
    out
}

/// Takes the assistant's answer for the selected group: overwrites the
/// description and the body lines with it, or reports the failure. A group
/// that was committed meanwhile is left alone.
pub fn apply_generation_result(app: &mut AppState, result: Result<(String, Option<String>), String>)
    ensures
        committed_kept(old(app).groups@, final(app).groups@),
        files_kept(old(app).groups@, final(app).groups@),
        generation_outcome(*old(app), *final(app), answer_view(result)),
{
    match result {
        Ok(answer) => {
            let body_lines: Vec<String> = match &answer.1 {
                Some(b) => {
                    let chars: Vec<char> = chars_of(b.as_str());
                    let lines: Vec<Vec<char>> = lines_of(&chars);
                    strings_of(&lines)
                },
                None => {
                    let empty: Vec<String> = Vec::new();
                    assert(string_views(empty@) =~= Seq::<Seq<char>>::empty());
                    empty
                },
            };
            let index: usize = app.selected_index;
            if index < app.groups.len() && !app.groups[index].committed {
                let ghost before = app.groups@;
                let mut group: ChangeGroup = take_group(&mut app.groups, index);
                group.description = answer.0;
                group.body_lines = body_lines;
                put_group(&mut app.groups, index, group);
                assert(app.groups@.len() == before.len());
            }
            app.set_status("✓ AI generated commit message successfully");
        },
        Err(e) => {
            let mut message: Vec<char> = chars_of("✗ AI generation failed: ");
            append_str(&mut message, e.as_str());
            append_str(&mut message, ". Check GITHUB_TOKEN.");
            let text: String = string_of(&message);
            app.set_status(text.as_str());
        },
    }
}

/// Takes the group at `index` out of `groups`, leaving an empty group in
/// its place.
fn take_group(groups: &mut Vec<ChangeGroup>, index: usize) -> (g: ChangeGroup)
    requires
        index < old(groups)@.len(),
    ensures
        g == old(groups)@[index as int],
        final(groups)@.len() == old(groups)@.len(),
        forall|i: int|
            0 <= i < old(groups)@.len() && i != index ==> #[trigger] final(groups)@[i] == old(
                groups,
            )@[i],
{
    let mut placeholder: ChangeGroup = ChangeGroup::new(
        crate::types::CommitType::Feat,
        None,
        Vec::new(),
        None,
        String::new(),
        Vec::new(),
    );
    let slot: &mut ChangeGroup = &mut groups[index];
    std::mem::swap(slot, &mut placeholder);
    placeholder
}

/// Puts `group` at `index` of `groups`.
fn put_group(groups: &mut Vec<ChangeGroup>, index: usize, group: ChangeGroup)
    requires
        index < old(groups)@.len(),
    ensures
        final(groups)@ == old(groups)@.update(index as int, group),
{
    groups[index] = group;
}

/// The index that the commit action asks to commit, if it asks: that of the
/// selected group, unless it is committed.
pub open spec fn commit_target(groups: Seq<ChangeGroup>, selected: usize) -> Option<usize> {
    match group_at(groups, selected) {
        Some(g) => if g.committed {
            None
        } else {
            Some(selected)
        },
        None => None,
    }
}

/// Handles committing a single group up to the commit itself: returns the
/// index of the group to commit, or refuses with a status message where the
/// selected group is committed already. Without a selected group nothing
/// happens.
pub fn handle_commit_action(app: &mut AppState) -> (r: Option<usize>)
    ensures
        r == commit_target(old(app).groups@, old(app).selected_index),
        match old(app).selected() {
            Some(g) => if g.committed {
                status_set(*old(app), *final(app), "✗ Group already committed"@)
            } else {
                *final(app) == *old(app)
            },
            None => *final(app) == *old(app),
        },
{
    let committed: bool = match app.selected_group() {
        Some(group) => group.is_committed(),
        None => {
            return None;
        },
    };
    if committed {
        app.set_status("✗ Group already committed");
        return None;
    }
    Some(app.selected_index)
}

/// The groups with the one at `index` marked as committed.
pub open spec fn with_committed(groups: Seq<ChangeGroup>, index: int) -> Seq<ChangeGroup> {
    if 0 <= index < groups.len() {
        groups.update(index, ChangeGroup { committed: true, ..groups[index] })
    } else {
        groups
    }
}

/// What the outcome of committing the group at `index` leaves: on success
/// the group is marked and the status tells the success; on failure the
/// groups are as before and the status tells the failure.
pub open spec fn commit_outcome(
    pre: AppState,
    post: AppState,
    index: usize,
    result: Result<(), Seq<char>>,
) -> bool {
    match result {
        Ok(_) => {
            let mid = AppState { groups: post.groups, ..pre };
            &&& post.groups@ == with_committed(pre.groups@, index as int)
            &&& status_set(mid, post, "✓ Committed selected group successfully"@)
        },
        Err(e) => status_set(pre, post, "✗ Commit failed: "@ + e),
    }
}

/// The view of the outcome of a commit.
pub open spec fn outcome_view(result: Result<(), String>) -> Result<(), Seq<char>> {
    match result {
        Ok(_) => Ok(()),
        Err(e) => Err(e@),
    }
}

/// Takes the outcome of committing the group at `index`: marks the group
/// as committed and reports success, or reports the failure and leaves the
/// group uncommitted, to be tried again.
pub fn apply_commit_result(app: &mut AppState, index: usize, result: Result<(), String>)
    ensures
        committed_kept(old(app).groups@, final(app).groups@),
        files_kept(old(app).groups@, final(app).groups@),
        commit_outcome(*old(app), *final(app), index, outcome_view(result)),
{
    match result {
        Ok(_) => {
            mark_committed(&mut app.groups, index);
            app.set_status("✓ Committed selected group successfully");
        },
        Err(e) => {
            let mut message: Vec<char> = chars_of("✗ Commit failed: ");
            append_str(&mut message, e.as_str());
            let text: String = string_of(&message);
            app.set_status(text.as_str());
        },
    }
}

/// Marks the group at `index` as committed, if there is one.
fn mark_committed(groups: &mut Vec<ChangeGroup>, index: usize)
    ensures
        final(groups)@ == with_committed(old(groups)@, index as int),
{
    if index < groups.len() {
        let ghost before = groups@;
        let slot: &mut ChangeGroup = &mut groups[index];
        slot.mark_as_committed();
        assert(groups@ =~= with_committed(before, index as int));
    }
}

/// Index of the first group at or after `from` that is not committed; the
/// number of groups if there is none.
pub open spec fn next_uncommitted(groups: Seq<ChangeGroup>, from: int) -> int
    decreases groups.len() - from,
{
    if from < 0 || from >= groups.len() {
        groups.len() as int
    } else if !groups[from].committed {
        from
    } else {
        next_uncommitted(groups, from + 1)
    }
}

/// What `next_uncommitted` returns lies at or after `from`, is an
/// uncommitted group if it is a group at all, and nothing between `from` and
/// it is uncommitted.
pub proof fn lemma_next_uncommitted(groups: Seq<ChangeGroup>, from: int)
    requires
        0 <= from <= groups.len(),
    ensures
        from <= next_uncommitted(groups, from) <= groups.len(),
        next_uncommitted(groups, from) < groups.len() ==> !groups[next_uncommitted(
            groups,
            from,
        )].committed,
        forall|i: int| from <= i < next_uncommitted(groups, from) ==> (#[trigger] groups[i]).committed,
    decreases groups.len() - from,
{
    if from < groups.len() && groups[from].committed {
        lemma_next_uncommitted(groups, from + 1);
    }
}

fn find_uncommitted(groups: &Vec<ChangeGroup>, from: usize) -> (r: usize)
    requires
        from <= groups@.len(),
    ensures
        r == next_uncommitted(groups@, from as int),
        from <= r <= groups@.len(),
{
    let mut i: usize = from;
    while i < groups.len() && groups[i].committed
        invariant
            from <= i <= groups@.len(),
            next_uncommitted(groups@, from as int) == next_uncommitted(groups@, i as int),
        decreases groups.len() - i,
    {
        i += 1;
    }
    i
}

/// How far a run over all groups has come.
#[derive(Debug, Clone, Copy, PartialEq, Eq, Structural)]
pub struct CommitRun {
    /// Index of the group to commit next; none when the run is over
    pub next: Option<usize>,
    /// Number of groups that the run has committed
    pub committed: usize,
}

/// The message that closes a run over all groups that committed `count`
/// groups.
pub open spec fn run_summary(count: nat) -> Seq<char> {
    "✓ Successfully committed "@ + decimal(count) + " group(s)"@
}

/// Starts a run over all groups: the first uncommitted group is the one to
/// commit next. Where every group is committed already, the run is over at
/// once and the status tells so.
pub fn commit_all_start(app: &mut AppState) -> (run: CommitRun)
    ensures
        run.committed == 0,
        next_uncommitted(old(app).groups@, 0) < old(app).groups@.len() ==> run.next == Some(
            next_uncommitted(old(app).groups@, 0) as usize,
        ) && *final(app) == *old(app),
        next_uncommitted(old(app).groups@, 0) >= old(app).groups@.len() ==> run.next is None
            && status_set(*old(app), *final(app), "✗ All groups already committed"@),
{
    let first: usize = find_uncommitted(&app.groups, 0);
    if first >= app.groups.len() {
        app.set_status("✗ All groups already committed");
        CommitRun { next: None, committed: 0 }
    } else {
        CommitRun { next: Some(first), committed: 0 }
    }
}

/// The run is at a group that can be committed.
pub open spec fn run_is_at(groups: Seq<ChangeGroup>, run: CommitRun) -> bool {
    run.next matches Some(i) && i < groups.len() && !groups[i as int].committed
}

/// What one outcome leaves of a run that is at a group: on success the
/// group is marked and the run goes on to the next uncommitted group, or
/// ends with the summary if there is none; on failure the groups are as
/// before, the status tells the failure, and the run is over.
pub open spec fn run_step(
    pre: AppState,
    post: AppState,
    run: CommitRun,
    after: CommitRun,
    result: Result<(), Seq<char>>,
) -> bool {
    let i = run.next->0;
    match result {
        Ok(_) => {
            let marked = with_committed(pre.groups@, i as int);
            let following = next_uncommitted(marked, i + 1);
            &&& post.groups@ == marked
            &&& after.committed == run.committed + 1
            &&& if following < marked.len() {
                after.next == Some(following as usize) && only_groups_differ(pre, post)
            } else {
                after.next is None && status_set(
                    AppState { groups: post.groups, ..pre },
                    post,
                    run_summary(after.committed as nat),
                )
            }
        },
        Err(e) => {
            &&& after.next is None
            &&& after.committed == run.committed
            &&& status_set(pre, post, "✗ Failed to commit group: "@ + e)
        },
    }
}

/// Takes the outcome of committing the group that the run is at. A success
/// marks the group at once and moves on; the first failure ends the run and
/// leaves that group and all later ones as they were. A run that is over,
/// or not at a group that can be committed, stays over and changes nothing.
pub fn commit_all_record(app: &mut AppState, run: CommitRun, result: Result<(), String>) -> (after:
    CommitRun)
    requires
        run.committed < usize::MAX,
    ensures
        committed_kept(old(app).groups@, final(app).groups@),
        files_kept(old(app).groups@, final(app).groups@),
        run_is_at(old(app).groups@, run) ==> run_step(
            *old(app),
            *final(app),
            run,
            after,
            outcome_view(result),
        ),
        !run_is_at(old(app).groups@, run) ==> after == (CommitRun { next: None, ..run })
            && *final(app) == *old(app),
{
    let index: usize = match run.next {
        Some(i) => i,
        None => {
            return CommitRun { next: None, committed: run.committed };
        },
    };
    if index >= app.groups.len() || app.groups[index].committed {
        return CommitRun { next: None, committed: run.committed };
    }
    match result {
        Ok(_) => {
            mark_committed(&mut app.groups, index);
            let count: usize = run.committed + 1;
            let following: usize = find_uncommitted(&app.groups, index + 1);
            if following < app.groups.len() {
                CommitRun { next: Some(following), committed: count }
            } else {
                let mut message: Vec<char> = chars_of("✓ Successfully committed ");
                let digits: Vec<char> = decimal_of(count);
                append(&mut message, &digits);
                append_str(&mut message, " group(s)");
                let text: String = string_of(&message);
                app.set_status(text.as_str());
                CommitRun { next: None, committed: count }
            }
        },
        Err(e) => {
            let mut message: Vec<char> = chars_of("✗ Failed to commit group: ");
            append_str(&mut message, e.as_str());
            let text: String = string_of(&message);
            app.set_status(text.as_str());
            CommitRun { next: None, committed: run.committed }
        },
    }
}

/// The lines to show of a text of `count` lines in a window of `height`
/// lines that is scrolled to `offset`: from the offset, or from the end of
/// the text if the offset lies behind it, as many as fit.
pub open spec fn window_of(offset: usize, height: usize, count: usize) -> (usize, usize) {
    let start = if offset < count {
        offset
    } else {
        count
    };
    let end = if height < count - start {
        (start + height) as usize
    } else {
        count
    };
    (start, end)
}

/// Tells which lines of a text to show: the index of the first and one past
/// the index of the last.
pub fn visible_range(offset: usize, height: usize, count: usize) -> (r: (usize, usize))
    ensures
        r == window_of(offset, height, count),
        r.0 <= r.1 <= count,
        r.1 - r.0 <= height,
{
    let start: usize = if offset < count {
        offset
    } else {
        count
    };
    let end: usize = if height < count - start {
        start + height
    } else {
        count
    };
    (start, end)
}

/// What a line of a diff shows.
#[derive(Debug, Clone, Copy, PartialEq, Eq, Structural)]
pub enum DiffLineKind {
    /// An added line
    Added,
    /// A removed line
    Removed,
    /// The heading of a hunk
    Hunk,
    /// A line of the file header
    Header,
    /// Anything else
    Context,
}

/// The kind of a line of a diff: added if it begins with one plus sign but
/// not three, removed likewise with minus signs, a hunk heading if it begins
/// with two at signs, a header line if it begins with `diff` or `index`.
pub open spec fn diff_line_kind_of(line: Seq<char>) -> DiffLineKind {
    if crate::text::starts_with(line, "+"@) && !crate::text::starts_with(line, "+++"@) {
        DiffLineKind::Added
    } else if crate::text::starts_with(line, "-"@) && !crate::text::starts_with(line, "---"@) {
        DiffLineKind::Removed
    } else if crate::text::starts_with(line, "@@"@) {
        DiffLineKind::Hunk
    } else if crate::text::starts_with(line, "diff"@) || crate::text::starts_with(
        line,
        "index"@,
    ) {
        DiffLineKind::Header
    } else {
        DiffLineKind::Context
    }
}

/// Tells what a line of a diff shows.
pub fn diff_line_kind(line: &str) -> (r: DiffLineKind)
    ensures
        r == diff_line_kind_of(line@),
{
    let l: Vec<char> = chars_of(line);
    if crate::text::begins(&l, "+") && !crate::text::begins(&l, "+++") {
        DiffLineKind::Added
    } else if crate::text::begins(&l, "-") && !crate::text::begins(&l, "---") {
        DiffLineKind::Removed
    } else if crate::text::begins(&l, "@@") {
        DiffLineKind::Hunk
    } else if crate::text::begins(&l, "diff") || crate::text::begins(&l, "index") {
        DiffLineKind::Header
    } else {
        DiffLineKind::Context
    }
}

/// The sign that the files panel shows for a file with this status.
pub open spec fn status_icon_of(status: u32) -> Seq<char> {
    if crate::types::has_all(status, crate::types::INDEX_NEW) {
        "+"@
    } else if crate::types::has_all(status, crate::types::INDEX_DELETED) {
        "-"@
    } else if crate::types::has_all(status, crate::types::INDEX_MODIFIED) {
        "~"@
    } else if crate::types::has_all(status, crate::types::INDEX_RENAMED) {
        "→"@
    } else {
        "•"@
    }
}

/// Tells the sign that the files panel shows for a file.
pub fn status_icon(file: &crate::types::ChangedFile) -> (r: &'static str)
    ensures
        r@ == status_icon_of(file.status),
{
    if file.is_new() {
        "+"
    } else if file.is_deleted() {
        "-"
    } else if file.is_modified() {
        "~"
    } else if file.is_renamed() {
        "→"
    } else {
        "•"
    }
}

/// The mark before a group in the groups panel: a check mark if it is
/// committed, else a pointer if it is selected, else two spaces.
pub open spec fn group_marker_of(committed: bool, selected: bool) -> Seq<char> {
    if committed {
        "✓ "@
    } else if selected {
        "▶ "@
    } else {
        "  "@
    }
}

/// Tells the mark before a group in the groups panel.
pub fn group_marker(committed: bool, selected: bool) -> (r: &'static str)
    ensures
        r@ == group_marker_of(committed, selected),
{
    if committed {
        "✓ "
    } else if selected {
        "▶ "
    } else {
        "  "
    }
}

/// The diffs that were fetched, one after the other; none if they come to
/// nothing.
pub open spec fn joined_diffs(diffs: Seq<String>, n: int) -> Seq<char>
    decreases n,
{
    if n <= 0 {
        Seq::empty()
    } else {
        joined_diffs(diffs, n - 1) + diffs[n - 1]@
    }
}

/// Puts the diffs of the files of a group together as context for the
/// assistant; none if they come to nothing.
pub fn combine_diffs(diffs: &Vec<String>) -> (r: Option<String>)
    ensures
        match r {
            Some(text) => text@ == joined_diffs(diffs@, diffs@.len() as int) && text@.len() > 0,
            None => joined_diffs(diffs@, diffs@.len() as int).len() == 0,
        },
{
    let mut out: Vec<char> = Vec::new();
    let mut i: usize = 0;
    while i < diffs.len()
        invariant
            i <= diffs.len(),
            out@ == joined_diffs(diffs@, i as int),
        decreases diffs.len() - i,
    {
        append_str(&mut out, diffs[i].as_str());
        i += 1;
    }
    if out.len() == 0 {
        None
    } else {
        Some(string_of(&out))
    }
}

/// Committed groups are kept: there are as many groups as before, and
/// every group that was committed is exactly as it was.
pub open spec fn committed_kept(pre: Seq<ChangeGroup>, post: Seq<ChangeGroup>) -> bool {
    &&& post.len() == pre.len()
    &&& forall|i: int| 0 <= i < pre.len() && pre[i].committed ==> #[trigger] post[i] == pre[i]
}

/// The files stay where they are: every group has the files it had.
pub open spec fn files_kept(pre: Seq<ChangeGroup>, post: Seq<ChangeGroup>) -> bool {
    &&& post.len() == pre.len()
    &&& forall|i: int| 0 <= i < pre.len() ==> (#[trigger] post[i]).files == pre[i].files
}

/// The state after a step down (or up) in the active panel.
pub open spec fn moved(pre: AppState, down: bool) -> AppState {
    let groups = pre.groups@.len();
    let files = crate::types::file_count(pre.groups@, pre.selected_index);
    match pre.active_panel {
        ActivePanel::Groups => if groups == 0 {
            pre
        } else {
            AppState {
                selected_index: if down {
                    crate::types::next_index(pre.selected_index, groups)
                } else {
                    crate::types::previous_index(pre.selected_index, groups)
                },
                selected_file_index: 0,
                commit_message_scroll_offset: 0,
                ..pre
            }
        },
        ActivePanel::CommitMessage => AppState {
            commit_message_scroll_offset: if down {
                crate::types::scrolled_down(
                    pre.commit_message_scroll_offset,
                    crate::types::message_lines(pre.groups@, pre.selected_index),
                )
            } else {
                crate::types::scrolled_up(pre.commit_message_scroll_offset)
            },
            ..pre
        },
        ActivePanel::Files => AppState {
            selected_file_index: if down {
                crate::types::next_index(pre.selected_file_index, files)
            } else {
                crate::types::previous_index(pre.selected_file_index, files)
            },
            ..pre
        },
    }
}

/// What a key leaves that the diff viewer owns.
pub open spec fn diff_key_outcome(pre: AppState, post: AppState, press: KeyPress) -> bool {
    match diff_command_for(press) {
        OverlayCommand::Close => {
            &&& post.diff_file_path@.len() == 0
            &&& post.diff_content@.len() == 0
            &&& post == (AppState {
                show_diff_viewer: false,
                diff_file_path: post.diff_file_path,
                diff_content: post.diff_content,
                diff_scroll_offset: 0,
                ..pre
            })
        },
        OverlayCommand::ScrollDown => post == (AppState {
            diff_scroll_offset: crate::types::scrolled_down(
                pre.diff_scroll_offset,
                split_lines(pre.diff_content@).len(),
            ),
            ..pre
        }),
        OverlayCommand::ScrollUp => post == (AppState {
            diff_scroll_offset: crate::types::scrolled_up(pre.diff_scroll_offset),
            ..pre
        }),
        OverlayCommand::Swallow => post == pre,
    }
}

/// `post` is `pre` with the status cleared and the popup closed.
pub open spec fn status_cleared(pre: AppState, post: AppState) -> bool {
    &&& post.status_message@.len() == 0
    &&& post == (AppState {
        status_message: post.status_message,
        popup_active: false,
        popup_scroll_offset: 0,
        ..pre
    })
}

/// What a key leaves that the status popup owns.
pub open spec fn popup_key_outcome(pre: AppState, post: AppState, press: KeyPress) -> bool {
    match popup_command_for(press) {
        OverlayCommand::Close => status_cleared(pre, post),
        OverlayCommand::ScrollDown => post == (AppState {
            popup_scroll_offset: crate::types::scrolled_down(
                pre.popup_scroll_offset,
                split_lines(pre.status_message@).len(),
            ),
            ..pre
        }),
        OverlayCommand::ScrollUp => post == (AppState {
            popup_scroll_offset: crate::types::scrolled_up(pre.popup_scroll_offset),
            ..pre
        }),
        OverlayCommand::Swallow => post == pre,
    }
}

/// What a key leaves that the editor owns. A question mark opens the help
/// on top. A save closes the editor and hands its text to the selected
/// group, if that can take a new message; a cancel closes it with the
/// original text and hands nothing over; any other key is the widget's, and
/// changes at most the buffer.
pub open spec fn editor_key_outcome(pre: AppState, post: AppState, press: KeyPress) -> bool {
    if opens_help(press) {
        post == (AppState { show_editor_help: !pre.show_editor_help, ..pre })
    } else {
        match command_of(Some(press)) {
            EditorCommand::Save => {
                &&& post == (AppState { editor: post.editor, groups: post.groups, ..pre })
                &&& !post.editor.active()
                &&& post.editor.text_spec() == buffered(pre.editor.text_spec())
                &&& post.editor.original() == post.editor.text_spec()
                &&& post.groups@.len() == pre.groups@.len()
                &&& forall|i: int|
                    0 <= i < pre.groups@.len() && !(i == pre.selected_index && can_rewrite(pre))
                        ==> #[trigger] post.groups@[i] == pre.groups@[i]
                &&& can_rewrite(pre) ==> crate::types::text_applied(
                    pre.groups@[pre.selected_index as int],
                    post.groups@[pre.selected_index as int],
                    post.editor.text_spec(),
                )
            },
            EditorCommand::Cancel => {
                &&& post == (AppState { editor: post.editor, ..pre })
                &&& !post.editor.active()
                &&& post.editor.text_spec() == buffered(pre.editor.original())
                &&& post.editor.original() == pre.editor.original()
            },
            EditorCommand::Forward => {
                &&& post == (AppState { editor: post.editor, ..pre })
                &&& post.editor.active() == pre.editor.active()
                &&& post.editor.original() == pre.editor.original()
            },
        }
    }
}

/// What a key leaves that the panels own, and what it asks the loop to do.
pub open spec fn panel_key_outcome(
    pre: AppState,
    post: AppState,
    press: KeyPress,
    ai_enabled: bool,
    action: Action,
) -> bool {
    match command_for(press) {
        Command::Quit => post == pre && action == Action::Quit,
        Command::NextPanel => action == Action::Stay && post == (AppState {
            active_panel: pre.active_panel.next_spec(),
            ..pre
        }),
        Command::PreviousPanel => action == Action::Stay && post == (AppState {
            active_panel: pre.active_panel.previous_spec(),
            ..pre
        }),
        Command::Down => action == Action::Stay && post == moved(pre, true),
        Command::Up => action == Action::Stay && post == moved(pre, false),
        Command::Edit => action == Action::Stay && edit_outcome(pre, post),
        Command::Diff => {
            &&& match diff_target(pre) {
                Some(p) => action matches Action::FetchDiff(path) && path@ == p,
                None => action == Action::Stay,
            }
            &&& match diff_notice(pre) {
                Some(m) => status_set(pre, post, m),
                None => post == pre,
            }
        },
        Command::Generate => {
            &&& action == (if ai_enabled && can_rewrite(pre) {
                Action::Generate
            } else {
                Action::Stay
            })
            &&& if !ai_enabled {
                status_set(pre, post, "✗ AI mode not enabled. Use --ai or --copilot flag."@)
            } else {
                match pre.selected() {
                    Some(g) => if g.committed {
                        status_set(pre, post, "✗ Cannot edit already committed group"@)
                    } else {
                        status_set(pre, post, "🤖 Generating commit message with AI..."@)
                    },
                    None => post == pre,
                }
            }
        },
        Command::Commit => {
            &&& match commit_target(pre.groups@, pre.selected_index) {
                Some(i) => action == Action::Commit(i),
                None => action == Action::Stay,
            }
            &&& match pre.selected() {
                Some(g) => if g.committed {
                    status_set(pre, post, "✗ Group already committed"@)
                } else {
                    post == pre
                },
                None => post == pre,
            }
        },
        Command::CommitAll => {
            let first = next_uncommitted(pre.groups@, 0);
            if first < pre.groups@.len() {
                action == Action::CommitAll(first as usize) && post == pre
            } else {
                action == Action::Stay && status_set(pre, post, "✗ All groups already committed"@)
            }
        },
        Command::ClearStatus => action == Action::Stay && status_cleared(pre, post),
        Command::Nothing => action == Action::Stay && post == pre,
    }
}

/// What a key leaves, by the overlay that owns it, and what it asks the
/// loop to do. Only the panels ask for anything.
pub open spec fn key_outcome(
    pre: AppState,
    post: AppState,
    press: KeyPress,
    ai_enabled: bool,
    action: Action,
) -> bool {
    match owner_of(pre) {
        Overlay::EditorHelp => action == Action::Stay && post == (if closes_help(press) {
            AppState { show_editor_help: false, ..pre }
        } else {
            pre
        }),
        Overlay::DiffViewer => action == Action::Stay && diff_key_outcome(pre, post, press),
        Overlay::Editor => action == Action::Stay && editor_key_outcome(pre, post, press),
        Overlay::Popup => action == Action::Stay && popup_key_outcome(pre, post, press),
        Overlay::Panels => panel_key_outcome(pre, post, press, ai_enabled, action),
    }
}

/// Handles a key that the editor owns.
fn handle_editor_key(app: &mut AppState, press: KeyPress, event: CrosstermEvent)
    ensures
        editor_key_outcome(*old(app), *final(app), press),
{
    match press.key {
        Key::Char(c) => {
            if c == '?' && press.modifiers == 0 {
                app.toggle_editor_help();
                return ;
            }
        },
        _ => {},
    }
    let go_on: bool = app.editor.handle_press(Some(press), event);
    if !go_on {
        let saved: bool = match press.key {
            Key::Char(c) => c == 's' && press.modifiers == CONTROL,
            _ => false,
        };
        if saved {
            let text: String = app.editor.text();
            let index: usize = app.selected_index;
            if index < app.groups.len() && !app.groups[index].committed {
                let ghost before = app.groups@;
                let mut group: ChangeGroup = take_group(&mut app.groups, index);
                group.set_from_commit_text(text.as_str());
                put_group(&mut app.groups, index, group);
                assert(app.groups@.len() == before.len());
            }
        }
    }
}

/// Handles a key that the panels own.
fn handle_panel_key(app: &mut AppState, press: KeyPress, ai_enabled: bool) -> (action: Action)
    ensures
        panel_key_outcome(*old(app), *final(app), press, ai_enabled, action),
{
    match panel_command(press) {
        Command::Quit => Action::Quit,
        Command::NextPanel => {
            app.activate_next_panel();
            Action::Stay
        },
        Command::PreviousPanel => {
            app.activate_previous_panel();
            Action::Stay
        },
        Command::Down => {
            match app.active_panel {
                ActivePanel::Groups => app.select_next(),
                ActivePanel::CommitMessage => app.scroll_commit_message_down(),
                ActivePanel::Files => app.select_next_file(),
            }
            Action::Stay
        },
        Command::Up => {
            match app.active_panel {
                ActivePanel::Groups => app.select_previous(),
                ActivePanel::CommitMessage => app.scroll_commit_message_up(),
                ActivePanel::Files => app.select_previous_file(),
            }
            Action::Stay
        },
        Command::Edit => {
            handle_edit_action(app);
            Action::Stay
        },
        Command::Diff => {
            match handle_diff_action(app) {
                Some(path) => Action::FetchDiff(path),
                None => Action::Stay,
            }
        },
        Command::Generate => {
            if handle_ai_generate_action(app, ai_enabled) {
                Action::Generate
            } else {
                Action::Stay
            }
        },
        Command::Commit => {
            match handle_commit_action(app) {
                Some(index) => Action::Commit(index),
                None => Action::Stay,
            }
        },
        Command::CommitAll => {
            let run: CommitRun = commit_all_start(app);
            match run.next {
                Some(first) => Action::CommitAll(first),
                None => Action::Stay,
            }
        },
        Command::ClearStatus => {
            app.clear_status();
            Action::Stay
        },
        Command::Nothing => Action::Stay,
    }
}

/// Handles a key press whose terminal event is `event`. The overlay with
/// the highest priority that is open owns the key: the editor help, the
/// diff viewer, the editor, the status popup; the panels where none is
/// open. Groups that are committed stay exactly as they are, and no group
/// gains or loses a file.
pub fn handle_key_press(
    app: &mut AppState,
    press: KeyPress,
    event: CrosstermEvent,
    ai_enabled: bool,
) -> (action: Action)
    ensures
        key_outcome(*old(app), *final(app), press, ai_enabled, action),
        committed_kept(old(app).groups@, final(app).groups@),
        files_kept(old(app).groups@, final(app).groups@),
{
    match owner(app) {
        Overlay::EditorHelp => {
            match press.key {
                Key::Esc => {
                    app.close_editor_help();
                },
                Key::Char(c) => {
                    if c == '?' {
                        app.close_editor_help();
                    }
                },
                _ => {},
            }
            Action::Stay
        },
        Overlay::DiffViewer => {
            match diff_command(press) {
                OverlayCommand::Close => app.close_diff(),
                OverlayCommand::ScrollDown => app.scroll_diff_down(),
                OverlayCommand::ScrollUp => app.scroll_diff_up(),
                OverlayCommand::Swallow => {},
            }
            Action::Stay
        },
        Overlay::Editor => {
            handle_editor_key(app, press, event);
            Action::Stay
        },
        Overlay::Popup => {
            match popup_command(press) {
                OverlayCommand::Close => app.clear_status(),
                OverlayCommand::ScrollDown => app.scroll_popup_down(),
                OverlayCommand::ScrollUp => app.scroll_popup_up(),
                OverlayCommand::Swallow => {},
            }
            Action::Stay
        },
        Overlay::Panels => handle_panel_key(app, press, ai_enabled),
    }
}

/// The variant `Event::Key`: the terminal event that holds a key event.
#[verifier::external_body]
fn event_of_key(key: KeyEvent) -> (r: CrosstermEvent)
    ensures
        key_in(r) == Some(key),
{
    CrosstermEvent::Key(key)
}

/// Handles a keyboard event: reads the key and its modifiers off the event
/// and handles the key press that it is.
pub fn handle_key_event(key: KeyEvent, app: &mut AppState, ai_enabled: bool) -> (action: Action)
    ensures
        key_outcome(*old(app), *final(app), press_of(key), ai_enabled, action),
        committed_kept(old(app).groups@, final(app).groups@),
        files_kept(old(app).groups@, final(app).groups@),
{
    let press: KeyPress = key_press_of(&key);
    let event: CrosstermEvent = event_of_key(key);
    handle_key_press(app, press, event, ai_enabled)
}

/// A group that was committed with success is not offered for a commit
/// again: with it selected, the commit action asks for nothing.
pub proof fn lemma_committed_group_is_refused(groups: Seq<ChangeGroup>, index: usize)
    requires
        index < groups.len(),
    ensures
        commit_target(with_committed(groups, index as int), index) is None,
        commit_target(groups, index) is Some <==> !groups[index as int].committed,
{
}

/// The groups after a run over all groups from `at` on, in which the commit
/// of the group at `fails_at` fails and every other commit succeeds.
pub open spec fn after_run(groups: Seq<ChangeGroup>, at: int, fails_at: int) -> Seq<ChangeGroup>
    decreases groups.len() - at,
{
    let i = next_uncommitted(groups, at);
    if i < at || at < 0 || i >= groups.len() || i == fails_at {
        groups
    } else {
        after_run(with_committed(groups, i), i + 1, fails_at)
    }
}

/// A run over all groups stops at the first failure and keeps what it has
/// done: where the commit of the uncommitted group at `fails_at` fails,
/// every group before it is committed afterwards, and that group and all
/// after it are exactly as they were. No group changes but for its mark.
pub proof fn lemma_run_stops_at_first_failure(groups: Seq<ChangeGroup>, at: int, fails_at: int)
    requires
        0 <= at <= fails_at < groups.len(),
        !groups[fails_at].committed,
        forall|j: int| 0 <= j < at ==> (#[trigger] groups[j]).committed,
    ensures
        after_run(groups, at, fails_at).len() == groups.len(),
        forall|j: int| 0 <= j < fails_at ==> (#[trigger] after_run(groups, at, fails_at)[j]).committed,
        forall|j: int|
            fails_at <= j < groups.len() ==> #[trigger] after_run(groups, at, fails_at)[j]
                == groups[j],
        forall|j: int|
            0 <= j < groups.len() ==> #[trigger] after_run(groups, at, fails_at)[j]
                == (ChangeGroup {
                committed: after_run(groups, at, fails_at)[j].committed,
                ..groups[j]
            }),
    decreases groups.len() - at,
{
    lemma_next_uncommitted(groups, at);
    let i = next_uncommitted(groups, at);
    if i != fails_at {
        assert(i < fails_at) by {
            if i > fails_at {
                assert(groups[fails_at].committed);
            }
        }
        let marked = with_committed(groups, i);
        assert forall|j: int| 0 <= j < i + 1 implies (#[trigger] marked[j]).committed by {
            if j < at {
                assert(groups[j].committed);
            } else if j < i {
                assert(groups[j].committed);
            }
        }
        lemma_run_stops_at_first_failure(marked, i + 1, fails_at);
        let result = after_run(groups, at, fails_at);
        assert(result == after_run(marked, i + 1, fails_at));
        assert forall|j: int| 0 <= j < groups.len() implies #[trigger] result[j] == (ChangeGroup {
            committed: result[j].committed,
            ..groups[j]
        }) by {
            assert(result[j] == (ChangeGroup { committed: result[j].committed, ..marked[j] }));
        }
    } else {
        assert forall|j: int| 0 <= j < fails_at implies (#[trigger] groups[j]).committed by {
            if j >= at {
                assert(groups[j].committed);
            }
        }
    }
}

/// A run in which no commit fails leaves every group committed.
pub proof fn lemma_run_without_failure(groups: Seq<ChangeGroup>, at: int)
    requires
        0 <= at <= groups.len(),
        forall|j: int| 0 <= j < at ==> (#[trigger] groups[j]).committed,
    ensures
        after_run(groups, at, groups.len() as int).len() == groups.len(),
        forall|j: int|
            0 <= j < groups.len() ==> (#[trigger] after_run(
                groups,
                at,
                groups.len() as int,
            )[j]).committed,
    decreases groups.len() - at,
{
    lemma_next_uncommitted(groups, at);
    let i = next_uncommitted(groups, at);
    if i < groups.len() {
        let marked = with_committed(groups, i);
        assert forall|j: int| 0 <= j < i + 1 implies (#[trigger] marked[j]).committed by {
            if j < i {
                assert(groups[j].committed);
            }
        }
        lemma_run_without_failure(marked, i + 1);
    } else {
        assert forall|j: int| 0 <= j < groups.len() implies (#[trigger] groups[j]).committed by {
            if j >= at {
                assert(groups[j].committed);
            }
        }
    }
}


/// The outcome of the commit of the group at `index` in a run in which the
/// commit of the group at `fails_at` fails with `failure` and every other
/// commit succeeds.
pub open spec fn outcome_in_run(index: usize, fails_at: int, failure: Seq<char>) -> Result<
    (),
    Seq<char>,
> {
    if index == fails_at {
        Err(failure)
    } else {
        Ok(())
    }
}

/// `states` and `runs` are a run over all groups as `commit_all_record`
/// takes it step by step: every state but the last is at a group with its
/// run, the state and the run that follow are what the outcome of that
/// group's commit leaves, and the last run is over.
pub open spec fn is_run(
    states: Seq<AppState>,
    runs: Seq<CommitRun>,
    fails_at: int,
    failure: Seq<char>,
) -> bool {
    &&& states.len() == runs.len()
    &&& states.len() > 0
    &&& runs.last().next is None
    &&& forall|k: int|
        0 <= k < states.len() - 1 ==> run_is_at((#[trigger] states[k]).groups@, runs[k])
            && run_step(
            states[k],
            states[k + 1],
            runs[k],
            runs[k + 1],
            outcome_in_run(runs[k].next->0, fails_at, failure),
        )
}

/// A run that goes on from `at` goes on from the first uncommitted group at
/// or after `at`.
pub proof fn lemma_after_run_skips(groups: Seq<ChangeGroup>, at: int, fails_at: int)
    requires
        0 <= at <= groups.len(),
    ensures
        after_run(groups, at, fails_at) == after_run(
            groups,
            next_uncommitted(groups, at),
            fails_at,
        ),
{
    lemma_next_uncommitted(groups, at);
    let j = next_uncommitted(groups, at);
    if j < groups.len() {
        assert(next_uncommitted(groups, j) == j);
    } else {
        assert(next_uncommitted(groups, j) == groups.len());
    }
}

/// One commit of a run, on the groups alone: where the commit of the
/// uncommitted group at `index` fails, the run ends with the groups as they
/// are; where it succeeds, the run goes on from the next uncommitted group
/// of the marked groups, or ends with them if there is none.
pub proof fn lemma_after_run_step(groups: Seq<ChangeGroup>, index: int, fails_at: int)
    requires
        0 <= index < groups.len(),
        !groups[index].committed,
    ensures
        index == fails_at ==> after_run(groups, index, fails_at) == groups,
        index != fails_at ==> after_run(groups, index, fails_at) == ({
            let marked = with_committed(groups, index);
            let following = next_uncommitted(marked, index + 1);
            if following < marked.len() {
                after_run(marked, following, fails_at)
            } else {
                marked
            }
        }),
{
    assert(next_uncommitted(groups, index) == index);
    if index != fails_at {
        let marked = with_committed(groups, index);
        assert(after_run(groups, index, fails_at) == after_run(marked, index + 1, fails_at));
        lemma_next_uncommitted(marked, index + 1);
        lemma_after_run_skips(marked, index + 1, fails_at);
        let following = next_uncommitted(marked, index + 1);
        if following >= marked.len() {
            assert(next_uncommitted(marked, following) == marked.len());
        }
    }
}

/// One step of `commit_all_record` is one commit of the run of `after_run`:
/// where the run goes on, it goes on to the same end; where it is over, the
/// groups are that end.
pub proof fn lemma_step_keeps_after_run(
    pre: AppState,
    post: AppState,
    run: CommitRun,
    after: CommitRun,
    fails_at: int,
    failure: Seq<char>,
)
    requires
        run_is_at(pre.groups@, run),
        run_step(pre, post, run, after, outcome_in_run(run.next->0, fails_at, failure)),
    ensures
        after_run(pre.groups@, run.next->0 as int, fails_at) == (match after.next {
            Some(j) => after_run(post.groups@, j as int, fails_at),
            None => post.groups@,
        }),
{
    let i = run.next->0;
    let groups = pre.groups@;
    lemma_after_run_step(groups, i as int, fails_at);
    if i == fails_at {
        assert(outcome_in_run(i, fails_at, failure) == Err::<(), Seq<char>>(failure));
        assert(after.next is None);
        assert(post.groups == pre.groups);
    } else {
        assert(outcome_in_run(i, fails_at, failure) == Ok::<(), Seq<char>>(()));
        let marked = with_committed(groups, i as int);
        let following = next_uncommitted(marked, i + 1);
        assert(post.groups@ == marked);
        lemma_next_uncommitted(marked, i + 1);
        if following < marked.len() {
            assert(marked.len() == pre.groups.len());
            assert(after.next == Some(following as usize));
            assert(after.next->0 as int == following);
        } else {
            assert(after.next is None);
        }
    }
}

/// The steps of `commit_all_record` are the run of `after_run`: from any
/// state of a run that is at a group, the run ends with the groups that
/// `after_run` gives for the groups of that state.
pub proof fn lemma_steps_give_after_run(
    states: Seq<AppState>,
    runs: Seq<CommitRun>,
    fails_at: int,
    failure: Seq<char>,
    k: int,
)
    requires
        is_run(states, runs, fails_at, failure),
        0 <= k < states.len(),
        runs[k].next is Some,
    ensures
        states.last().groups@ == after_run(states[k].groups@, runs[k].next->0 as int, fails_at),
    decreases states.len() - k,
{
    let last = states.len() - 1;
    assert(k < last);
    assert(run_is_at(states[k].groups@, runs[k]));
    lemma_step_keeps_after_run(
        states[k],
        states[k + 1],
        runs[k],
        runs[k + 1],
        fails_at,
        failure,
    );
    if runs[k + 1].next is Some {
        lemma_steps_give_after_run(states, runs, fails_at, failure, k + 1);
    } else if k + 1 < last {
        assert(run_is_at(states[k + 1].groups@, runs[k + 1]));
    }
}

/// A run over all groups, as `commit_all_start` begins it and
/// `commit_all_record` takes it on, stops at the first failure and keeps
/// what it has done: where the commit of the uncommitted group at `fails_at`
/// fails, every group before it is committed at the end, and that group and
/// all after it are exactly as they were.
pub proof fn lemma_commit_all_stops_at_first_failure(
    states: Seq<AppState>,
    runs: Seq<CommitRun>,
    fails_at: int,
    failure: Seq<char>,
)
    requires
        is_run(states, runs, fails_at, failure),
        runs[0].next == Some(next_uncommitted(states[0].groups@, 0) as usize),
        0 <= fails_at < states[0].groups@.len(),
        !states[0].groups@[fails_at].committed,
    ensures
        states.last().groups@.len() == states[0].groups@.len(),
        forall|j: int| 0 <= j < fails_at ==> (#[trigger] states.last().groups@[j]).committed,
        forall|j: int|
            fails_at <= j < states[0].groups@.len() ==> #[trigger] states.last().groups@[j]
                == states[0].groups@[j],
{
    let groups = states[0].groups@;
    let at = next_uncommitted(groups, 0);
    lemma_next_uncommitted(groups, 0);
    assert(at <= fails_at) by {
        if at > fails_at {
            assert(groups[fails_at].committed);
        }
    }
    lemma_steps_give_after_run(states, runs, fails_at, failure, 0);
    lemma_run_stops_at_first_failure(groups, at, fails_at);
}

} // verus!
