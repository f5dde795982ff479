//! The change model: commit types, changed files and change groups, with the
//! rendering of a group as a commit message and its re-parsing from text.

use crate::editor::CommitMessageEditor;
use crate::text::{
    append, append_str, byte_len, chars_of, ends_with, fit_prefix, has_prefix, last_match,
    lemma_byte_len_bounds, lemma_byte_len_concat, lemma_prefix_within, line_count, lines_of,
    matches_at, prefix_within, rfind, slice_of, split_lines, starts_with, string_of, string_views,
    trim, trimmed, views,
};
use vstd::prelude::*;

verus! {

/// Conventional commit types, in their fixed order.
#[derive(Debug, Clone, Copy, PartialEq, Eq, Structural, PartialOrd, Ord, Hash)]
pub enum CommitType {
    /// A new feature
    Feat,
    /// A bug fix
    Fix,
    /// Documentation changes
    Docs,
    /// Code style changes (formatting, whitespace, etc.)
    Style,
    /// Code refactoring without changing functionality
    Refactor,
    /// Performance improvements
    Perf,
    /// Adding or updating tests
    Test,
    /// Maintenance tasks
    Chore,
    /// CI/CD pipeline changes
    Ci,
    /// Build system or dependency changes
    Build,
}

impl CommitType {
    /// The lowercase tag of this commit type.
    pub open spec fn tag(self) -> Seq<char> {
        match self {
            CommitType::Feat => "feat"@,
            CommitType::Fix => "fix"@,
            CommitType::Docs => "docs"@,
            CommitType::Style => "style"@,
            CommitType::Refactor => "refactor"@,
            CommitType::Perf => "perf"@,
            CommitType::Test => "test"@,
            CommitType::Chore => "chore"@,
            CommitType::Ci => "ci"@,
            CommitType::Build => "build"@,
        }
    }

    /// Position of this commit type in the fixed order.
    pub open spec fn rank(self) -> nat {
        match self {
            CommitType::Feat => 0,
            CommitType::Fix => 1,
            CommitType::Docs => 2,
            CommitType::Style => 3,
            CommitType::Refactor => 4,
            CommitType::Perf => 5,
            CommitType::Test => 6,
            CommitType::Chore => 7,
            CommitType::Ci => 8,
            CommitType::Build => 9,
        }
    }

    /// All commit types, in order.
    pub open spec fn all_types() -> Seq<CommitType> {
        seq![
            CommitType::Feat,
            CommitType::Fix,
            CommitType::Docs,
            CommitType::Style,
            CommitType::Refactor,
            CommitType::Perf,
            CommitType::Test,
            CommitType::Chore,
            CommitType::Ci,
            CommitType::Build,
        ]
    }

    /// Returns the conventional commit type prefix as a string.
    pub fn as_str(&self) -> (r: &'static str)
        ensures
            r@ == self.tag(),
    {
        match self {
            Self::Feat => "feat",
            Self::Fix => "fix",
            Self::Docs => "docs",
            Self::Style => "style",
            Self::Refactor => "refactor",
            Self::Perf => "perf",
            Self::Test => "test",
            Self::Chore => "chore",
            Self::Ci => "ci",
            Self::Build => "build",
        }
    }

    /// Returns all available commit types.
    pub fn all() -> (r: &'static [Self])
        ensures
            r@ == Self::all_types(),
    {
        let r: &'static [Self] = &[
            Self::Feat,
            Self::Fix,
            Self::Docs,
            Self::Style,
            Self::Refactor,
            Self::Perf,
            Self::Test,
            Self::Chore,
            Self::Ci,
            Self::Build,
        ];
        assert(r@ =~= Self::all_types());
        r
    }

    /// Position of this commit type in the fixed order.
    pub fn position(&self) -> (r: u8)
        ensures
            r == self.rank(),
            r < 10,
    {
        match self {
            Self::Feat => 0,
            Self::Fix => 1,
            Self::Docs => 2,
            Self::Style => 3,
            Self::Refactor => 4,
            Self::Perf => 5,
            Self::Test => 6,
            Self::Chore => 7,
            Self::Ci => 8,
            Self::Build => 9,
        }
    }
}

/// Every commit type stands in `all_types` at the index of its rank, so the
/// list holds each type exactly once and in order.
pub proof fn lemma_all_types_by_rank(t: CommitType)
    ensures
        CommitType::all_types().len() == 10,
        t.rank() < 10,
        CommitType::all_types()[t.rank() as int] == t,
{
}

/// Flag of a file status: added to the index.
pub const INDEX_NEW: u32 = 1;

/// Flag of a file status: modified in the index.
pub const INDEX_MODIFIED: u32 = 2;

/// Flag of a file status: deleted from the index.
pub const INDEX_DELETED: u32 = 4;

/// Flag of a file status: renamed in the index.
pub const INDEX_RENAMED: u32 = 8;

/// Flag of a file status: type changed in the index.
pub const INDEX_TYPECHANGE: u32 = 16;

/// Flag of a file status: new in the working tree.
pub const WT_NEW: u32 = 128;

/// Flag of a file status: modified in the working tree.
pub const WT_MODIFIED: u32 = 256;

/// Flag of a file status: deleted from the working tree.
pub const WT_DELETED: u32 = 512;

/// Flag of a file status: type changed in the working tree.
pub const WT_TYPECHANGE: u32 = 1024;

/// Flag of a file status: renamed in the working tree.
pub const WT_RENAMED: u32 = 2048;

/// Every flag of `mask` is set in `status`.
pub open spec fn has_all(status: u32, mask: u32) -> bool {
    status & mask == mask
}

/// Some flag of `mask` is set in `status`.
pub open spec fn has_any(status: u32, mask: u32) -> bool {
    status & mask != 0
}

/// Represents a single file that has been changed in the repository.
#[derive(Debug, Clone)]
pub struct ChangedFile {
    /// Relative path to the file from the repository root
    pub path: String,
    /// Status flags for this file: a union of the flag constants
    pub status: u32,
}

impl ChangedFile {
    /// Creates a new changed file entry.
    pub fn new(path: String, status: u32) -> (r: Self)
        ensures
            r.path == path,
            r.status == status,
    {
        Self { path, status }
    }

    /// Checks if the file was newly added.
    pub fn is_new(&self) -> (b: bool)
        ensures
            b == has_all(self.status, INDEX_NEW),
    {
        self.status & INDEX_NEW == INDEX_NEW
    }

    /// Checks if the file was modified.
    pub fn is_modified(&self) -> (b: bool)
        ensures
            b == has_all(self.status, INDEX_MODIFIED),
    {
        self.status & INDEX_MODIFIED == INDEX_MODIFIED
    }

    /// Checks if the file was deleted.
    pub fn is_deleted(&self) -> (b: bool)
        ensures
            b == has_all(self.status, INDEX_DELETED),
    {
        self.status & INDEX_DELETED == INDEX_DELETED
    }

    /// Checks if the file was renamed.
    pub fn is_renamed(&self) -> (b: bool)
        ensures
            b == has_all(self.status, INDEX_RENAMED),
    {
        self.status & INDEX_RENAMED == INDEX_RENAMED
    }

    /// A copy of this entry.
    pub fn duplicate(&self) -> (r: Self)
        ensures
            r == *self,
    {
        Self { path: self.path.clone(), status: self.status }
    }
}

/// The view of an optional string.
pub open spec fn opt_view(s: Option<String>) -> Option<Seq<char>> {
    match s {
        Some(t) => Some(t@),
        None => None,
    }
}

/// The part of a header that names the scope: the scope in parentheses, or
/// nothing.
pub open spec fn scope_part(scope: Option<Seq<char>>) -> Seq<char> {
    match scope {
        Some(s) => "("@ + s + ")"@,
        None => Seq::empty(),
    }
}

/// The part of a header that names the ticket: the ticket, a colon and a
/// space, or nothing.
pub open spec fn ticket_part(ticket: Option<Seq<char>>) -> Seq<char> {
    match ticket {
        Some(t) => t + ": "@,
        None => Seq::empty(),
    }
}

/// Everything of a header but the description:
/// `<type>[(<scope>)]: [<ticket>: ]`.
pub open spec fn base_prefix(
    commit_type: CommitType,
    scope: Option<Seq<char>>,
    ticket: Option<Seq<char>>,
) -> Seq<char> {
    commit_type.tag() + scope_part(scope) + ": "@ + ticket_part(ticket)
}

/// Bytes left for the description after a prefix of `prefix_bytes` bytes.
pub open spec fn available_for(prefix_bytes: nat) -> nat {
    if prefix_bytes >= 72 {
        0
    } else {
        (72 - prefix_bytes) as nat
    }
}

/// The description as it stands in a header with `available` bytes left for
/// it: unchanged if it fits; else its longest prefix that fits in three
/// bytes less (in no bytes, if fewer than three are left), followed by an
/// ellipsis of three dots.
pub open spec fn fitted_description(description: Seq<char>, available: nat) -> Seq<char> {
    if byte_len(description) <= available {
        description
    } else {
        let room = if available >= 3 {
            (available - 3) as nat
        } else {
            0
        };
        description.subrange(0, prefix_within(description, room) as int) + "..."@
    }
}

/// The header line of a commit message.
pub open spec fn header_text(
    commit_type: CommitType,
    scope: Option<Seq<char>>,
    ticket: Option<Seq<char>>,
    description: Seq<char>,
) -> Seq<char> {
    let prefix = base_prefix(commit_type, scope, ticket);
    prefix + fitted_description(description, available_for(byte_len(prefix)))
}

/// The body block of a commit message: each line after a dash and a space,
/// and closed by a line feed.
pub open spec fn body_block(lines: Seq<Seq<char>>) -> Seq<char>
    decreases lines.len(),
{
    if lines.len() == 0 {
        Seq::empty()
    } else {
        body_block(lines.drop_last()) + "- "@ + lines.last() + "\n"@
    }
}

/// The whole commit message: the header, and if there are body lines, an
/// empty line and the body block.
pub open spec fn message_text(header: Seq<char>, lines: Seq<Seq<char>>) -> Seq<char> {
    if lines.len() == 0 {
        header
    } else {
        header + "\n\n"@ + body_block(lines)
    }
}

/// The description that a header line stands for: what follows its last
/// colon-and-space, trimmed; the whole line, trimmed, if it holds none.
pub open spec fn description_of(header_line: Seq<char>) -> Seq<char> {
    match last_match(header_line, ": "@) {
        Some(i) => trim(header_line.subrange(i + 2, header_line.len() as int)),
        None => trim(header_line),
    }
}

/// The body line that a line of text stands for, if any: what follows a
/// leading dash-and-space of the trimmed line, else the trimmed line itself
/// unless it is empty.
pub open spec fn body_line_of(line: Seq<char>) -> Option<Seq<char>> {
    let t = trim(line);
    if starts_with(t, "- "@) {
        Some(t.subrange(2, t.len() as int))
    } else if t.len() > 0 {
        Some(t)
    } else {
        None
    }
}

/// The body lines that these lines of text stand for, in order.
pub open spec fn body_lines_of(lines: Seq<Seq<char>>) -> Seq<Seq<char>>
    decreases lines.len(),
{
    if lines.len() == 0 {
        Seq::empty()
    } else {
        match body_line_of(lines.last()) {
            Some(b) => body_lines_of(lines.drop_last()).push(b),
            None => body_lines_of(lines.drop_last()),
        }
    }
}

/// The description does not fit after its prefix, so the header shows it cut
/// and closed by an ellipsis.
pub open spec fn is_truncated(
    commit_type: CommitType,
    scope: Option<Seq<char>>,
    ticket: Option<Seq<char>>,
    description: Seq<char>,
) -> bool {
    byte_len(description) > available_for(byte_len(base_prefix(commit_type, scope, ticket)))
}

/// The header keeps to 72 bytes unless its prefix alone leaves no room: it
/// takes at most 72 bytes exactly when the prefix takes at most 72 and the
/// description fits, or the prefix takes at most 69 and the description is
/// cut. A cut header ends with the ellipsis; an uncut one is the prefix
/// followed by the whole description.
pub proof fn lemma_header_length(
    commit_type: CommitType,
    scope: Option<Seq<char>>,
    ticket: Option<Seq<char>>,
    description: Seq<char>,
)
    ensures
        ({
            let prefix = base_prefix(commit_type, scope, ticket);
            let header = header_text(commit_type, scope, ticket, description);
            let cut = is_truncated(commit_type, scope, ticket, description);
            &&& byte_len(prefix) <= 69 ==> byte_len(header) <= 72
            &&& byte_len(header) <= 72 <==> byte_len(prefix) <= (if cut {
                69nat
            } else {
                72nat
            })
            &&& cut ==> ends_with(header, "..."@)
            &&& !cut ==> header == prefix + description
            &&& starts_with(header, prefix)
        }),
{
    let prefix = base_prefix(commit_type, scope, ticket);
    let header = header_text(commit_type, scope, ticket, description);
    let available = available_for(byte_len(prefix));
    let shown = fitted_description(description, available);
    lemma_byte_len_concat(prefix, shown);
    assert(header.subrange(0, prefix.len() as int) == prefix);
    if byte_len(description) > available {
        let room = if available >= 3 {
            (available - 3) as nat
        } else {
            0
        };
        let kept = description.subrange(0, prefix_within(description, room) as int);
        lemma_prefix_within(description, room);
        lemma_byte_len_concat(kept, "..."@);
        lemma_ellipsis();
        assert(header.subrange(header.len() - 3, header.len() as int) == "..."@);
        if room == 0 {
            lemma_byte_len_bounds(kept);
        }
    }
}

/// The ellipsis is three characters that take three bytes.
pub proof fn lemma_ellipsis()
    ensures
        "..."@.len() == 3,
        byte_len("..."@) == 3,
{
    reveal_strlit("...");
    let e = "..."@;
    assert(e.drop_last().drop_last().drop_last().len() == 0);
    reveal_with_fuel(byte_len, 4);
}

/// A message is its header alone exactly when there are no body lines;
/// with body lines, an empty line follows the header, then the block, which
/// begins with a bullet and ends with a line feed.
pub proof fn lemma_body_block_iff_lines(header: Seq<char>, lines: Seq<Seq<char>>)
    ensures
        message_text(header, lines) == header <==> lines.len() == 0,
        lines.len() == 0 ==> body_block(lines).len() == 0,
        lines.len() > 0 ==> starts_with(body_block(lines), "- "@) && ends_with(
            body_block(lines),
            "\n"@,
        ),
        starts_with(message_text(header, lines), header),
    decreases lines.len(),
{
    reveal_strlit("- ");
    reveal_strlit("\n");
    reveal_strlit("\n\n");
    let m = message_text(header, lines);
    assert(m.subrange(0, header.len() as int) == header);
    if lines.len() > 0 {
        let b = body_block(lines);
        let front = lines.drop_last();
        lemma_body_block_iff_lines(header, front);
        assert(b.subrange(b.len() - 1, b.len() as int) == "\n"@);
        if front.len() == 0 {
            assert(b.subrange(0, 2) == "- "@);
        } else {
            assert(b.subrange(0, 2) == body_block(front).subrange(0, 2));
        }
        assert(m.len() > header.len());
    }
}

/// A logical group of changes representing a single potential commit.
#[derive(Debug, Clone)]
pub struct ChangeGroup {
    /// The type of this commit (feat, fix, docs, etc.)
    pub commit_type: CommitType,
    /// Optional scope (e.g., component or module name)
    pub scope: Option<String>,
    /// Files included in this commit
    pub files: Vec<ChangedFile>,
    /// Optional ticket/issue reference (e.g., "LU-1234")
    pub ticket: Option<String>,
    /// Short description of the changes
    pub description: String,
    /// Detailed bullet points for the commit body, without the leading dash
    pub body_lines: Vec<String>,
    /// Whether this group has been committed; set once, never cleared
    pub committed: bool,
}

/// The description that edited text gives a group: that of its first line;
/// the one the group had where the text has no line.
pub open spec fn edited_description(text: Seq<char>, previous: Seq<char>) -> Seq<char> {
    if split_lines(text).len() == 0 {
        previous
    } else {
        description_of(split_lines(text)[0])
    }
}

/// The body lines that edited text gives a group: those of its lines after
/// the first.
pub open spec fn edited_body(text: Seq<char>) -> Seq<Seq<char>> {
    if split_lines(text).len() == 0 {
        Seq::empty()
    } else {
        body_lines_of(split_lines(text).drop_first())
    }
}

/// `post` is `pre` with the description and the body lines of the edited
/// text, and nothing else changed.
pub open spec fn text_applied(pre: ChangeGroup, post: ChangeGroup, text: Seq<char>) -> bool {
    &&& post.description@ == edited_description(text, pre.description@)
    &&& string_views(post.body_lines@) == edited_body(text)
    &&& post == (ChangeGroup { description: post.description, body_lines: post.body_lines, ..pre })
}

impl ChangeGroup {
    /// Maximum length of a commit header line, in bytes.
    pub const MAX_HEADER_LENGTH: usize = 72;

    /// The header line of this group.
    pub open spec fn header_spec(&self) -> Seq<char> {
        header_text(self.commit_type, opt_view(self.scope), opt_view(self.ticket), self.description@)
    }

    /// The full commit message of this group.
    pub open spec fn message_spec(&self) -> Seq<char> {
        message_text(self.header_spec(), string_views(self.body_lines@))
    }

    /// The paths of the files of this group, in order.
    pub open spec fn paths(&self) -> Seq<Seq<char>> {
        Seq::new(self.files@.len(), |i: int| self.files@[i].path@)
    }

    /// Creates a new change group, not yet committed.
    pub fn new(
        commit_type: CommitType,
        scope: Option<String>,
        files: Vec<ChangedFile>,
        ticket: Option<String>,
        description: String,
        body_lines: Vec<String>,
    ) -> (r: Self)
        ensures
            r.commit_type == commit_type,
            r.scope == scope,
            r.files == files,
            r.ticket == ticket,
            r.description == description,
            r.body_lines == body_lines,
            !r.committed,
    {
        Self { commit_type, scope, files, ticket, description, body_lines, committed: false }
    }

    /// Tells whether this group has been committed.
    pub fn is_committed(&self) -> (b: bool)
        ensures
            b == self.committed,
    {
        self.committed
    }

    /// Records that this group has been committed.
    pub fn mark_as_committed(&mut self)
        ensures
            final(self).committed,
            *final(self) == (ChangeGroup { committed: true, ..*old(self) }),
    {
        self.committed = true;
    }

    /// The characters of everything in the header but the description.
    fn prefix_chars(&self) -> (r: Vec<char>)
        ensures
            r@ == base_prefix(self.commit_type, opt_view(self.scope), opt_view(self.ticket)),
    {
        let mut out: Vec<char> = chars_of(self.commit_type.as_str());
        match &self.scope {
            Some(s) => {
                append_str(&mut out, "(");
                append_str(&mut out, s.as_str());
                append_str(&mut out, ")");
                assert(out@ == self.commit_type.tag() + ("("@ + s@ + ")"@));
            },
            None => {
                assert(out@ == self.commit_type.tag() + Seq::<char>::empty());
            },
        }
        append_str(&mut out, ": ");
        match &self.ticket {
            Some(t) => {
                let ghost before = out@;
                append_str(&mut out, t.as_str());
                append_str(&mut out, ": ");
                assert(out@ == before + (t@ + ": "@));
            },
            None => {
                assert(out@ == out@ + Seq::<char>::empty());
            },
        }
        out
    }

    /// The characters of the header line.
    fn header_chars(&self) -> (r: Vec<char>)
        ensures
            r@ == self.header_spec(),
    {
        let mut out: Vec<char> = self.prefix_chars();
        let ghost prefix = out@;
        let fit: (usize, usize) = fit_prefix(&out, 72);
        let available: usize = if fit.0 == out.len() {
            72 - fit.1
        } else {
            0
        };
        assert(prefix.subrange(0, prefix.len() as int) == prefix);
        assert(available == available_for(byte_len(prefix)));
        let desc: Vec<char> = chars_of(self.description.as_str());
        let whole: (usize, usize) = fit_prefix(&desc, available);
        if whole.0 == desc.len() {
            append(&mut out, &desc);
        } else {
            let room: usize = if available >= 3 {
                available - 3
            } else {
                0
            };
            let cut: (usize, usize) = fit_prefix(&desc, room);
            let kept: Vec<char> = slice_of(&desc, 0, cut.0);
            append(&mut out, &kept);
            append_str(&mut out, "...");
            assert(out@ == prefix + (kept@ + "..."@));
        }
        out
    }

    /// Generates the commit message header line:
    /// `<type>[(<scope>)]: [<ticket>: ]<description>`, with the description
    /// cut and closed by an ellipsis where the line would pass 72 bytes.
    pub fn header(&self) -> (r: String)
        ensures
            r@ == self.header_spec(),
    {
        let out: Vec<char> = self.header_chars();
        string_of(&out)
    }

    /// Generates the full commit message including header and body.
    pub fn full_message(&self) -> (r: String)
        ensures
            r@ == self.message_spec(),
    {
        let mut out: Vec<char> = self.header_chars();
        let n: usize = self.body_lines.len();
        if n > 0 {
            append_str(&mut out, "\n\n");
            let ghost head = out@;
            let ghost lines = string_views(self.body_lines@);
            let mut i: usize = 0;
            assert(lines.subrange(0, 0) == Seq::<Seq<char>>::empty());
            assert(out@ == head + Seq::<char>::empty());
            while i < n
                invariant
                    i <= n,
                    n == self.body_lines.len(),
                    lines == string_views(self.body_lines@),
                    out@ == head + body_block(lines.subrange(0, i as int)),
                decreases n - i,
            {
                let ghost before = body_block(lines.subrange(0, i as int));
                append_str(&mut out, "- ");
                append_str(&mut out, self.body_lines[i].as_str());
                append_str(&mut out, "\n");
                assert(lines.subrange(0, i + 1).drop_last() == lines.subrange(0, i as int));
                assert(lines.subrange(0, i + 1).last() == self.body_lines@[i as int]@);
                assert(out@ == head + (before + "- "@ + self.body_lines@[i as int]@ + "\n"@));
                i += 1;
            }
            assert(lines.subrange(0, n as int) == lines);
        }
        string_of(&out)
    }

    /// Updates the group from user-edited commit text. The first line gives
    /// the description; every later line that is not blank gives a body
    /// line. Text without any line leaves the description as it is.
    pub fn set_from_commit_text(&mut self, text: &str)
        ensures
            text_applied(*old(self), *final(self), text@),
    {
        let chars: Vec<char> = chars_of(text);
        let lines: Vec<Vec<char>> = lines_of(&chars);
        let ghost all = split_lines(text@);
        let mut body: Vec<String> = Vec::new();
        if lines.len() > 0 {
            assert(lines@[0]@ == all[0]);
            let h: &Vec<char> = &lines[0];
            let sep: Vec<char> = chars_of(": ");
            proof {
                reveal_strlit(": ");
                assert(sep@.len() == 2);
            }
            let found: Option<usize> = rfind(h, &sep);
            match found {
                Some(i) => {
                    assert(matches_at(h@, sep@, i as int));
                    assert(i + 2 <= h.len());
                    let tail: Vec<char> = slice_of(h, i + 2, h.len());
                    let d: Vec<char> = trimmed(&tail);
                    self.description = string_of(&d);
                },
                None => {
                    let d: Vec<char> = trimmed(h);
                    self.description = string_of(&d);
                },
            }
            let dash: Vec<char> = chars_of("- ");
            proof {
                reveal_strlit("- ");
            }
            let ghost rest = all.drop_first();
            let mut k: usize = 1;
            assert(rest.subrange(0, 0) == Seq::<Seq<char>>::empty());
            while k < lines.len()
                invariant
                    1 <= k <= lines.len(),
                    crate::text::views(lines@) == all,
                    rest == all.drop_first(),
                    dash@ == "- "@,
                    dash@.len() == 2,
                    string_views(body@) == body_lines_of(rest.subrange(0, k - 1)),
                decreases lines.len() - k,
            {
                let t: Vec<char> = trimmed(&lines[k]);
                let ghost prev = string_views(body@);
                assert(lines@[k as int]@ == all[k as int]);
                assert(rest.subrange(0, k as int).drop_last() == rest.subrange(0, k - 1));
                assert(rest.subrange(0, k as int).last() == all[k as int]);
                if has_prefix(&t, &dash) {
                    let b: Vec<char> = slice_of(&t, 2, t.len());
                    body.push(string_of(&b));
                    assert(string_views(body@) == prev.push(b@));
                } else if t.len() > 0 {
                    body.push(string_of(&t));
                    assert(string_views(body@) == prev.push(t@));
                }
                k += 1;
            }
            assert(rest.subrange(0, lines.len() - 1) == rest);
        } else {
            assert(string_views(body@) == Seq::<Seq<char>>::empty());
        }
        self.body_lines = body;
    }
}

/// The three panels of the interface, in the order in which Tab visits them.
#[derive(Debug, Clone, Copy, PartialEq, Eq, Structural)]
pub enum ActivePanel {
    /// The list of groups
    Groups,
    /// The commit message of the selected group
    CommitMessage,
    /// The files of the selected group
    Files,
}

impl ActivePanel {
    /// The panel that follows this one; after the last comes the first.
    pub open spec fn next_spec(self) -> ActivePanel {
        match self {
            ActivePanel::Groups => ActivePanel::CommitMessage,
            ActivePanel::CommitMessage => ActivePanel::Files,
            ActivePanel::Files => ActivePanel::Groups,
        }
    }

    /// The panel that precedes this one; before the first comes the last.
    pub open spec fn previous_spec(self) -> ActivePanel {
        match self {
            ActivePanel::Groups => ActivePanel::Files,
            ActivePanel::CommitMessage => ActivePanel::Groups,
            ActivePanel::Files => ActivePanel::CommitMessage,
        }
    }

    /// The panel that follows this one.
    pub fn next(self) -> (r: ActivePanel)
        ensures
            r == self.next_spec(),
    {
        match self {
            ActivePanel::Groups => ActivePanel::CommitMessage,
            ActivePanel::CommitMessage => ActivePanel::Files,
            ActivePanel::Files => ActivePanel::Groups,
        }
    }

    /// The panel that precedes this one.
    pub fn previous(self) -> (r: ActivePanel)
        ensures
            r == self.previous_spec(),
    {
        match self {
            ActivePanel::Groups => ActivePanel::Files,
            ActivePanel::CommitMessage => ActivePanel::Groups,
            ActivePanel::Files => ActivePanel::CommitMessage,
        }
    }
}

/// The panels form a cycle of three: three steps forward, or three back,
/// return to the start, and a step back undoes a step forward.
pub proof fn lemma_panel_cycle(p: ActivePanel)
    ensures
        p.next_spec().next_spec().next_spec() == p,
        p.previous_spec().previous_spec().previous_spec() == p,
        p.next_spec().previous_spec() == p,
        p.previous_spec().next_spec() == p,
        p.next_spec() != p,
{
}

/// The index after `index` among `len` positions, the first after the last;
/// `index` itself where there is no position.
pub open spec fn next_index(index: usize, len: nat) -> usize {
    if len == 0 {
        index
    } else if index + 1 < len {
        (index + 1) as usize
    } else {
        0
    }
}

/// The index before `index` among `len` positions, the last before the
/// first; `index` itself where there is no position.
pub open spec fn previous_index(index: usize, len: nat) -> usize {
    if len == 0 {
        index
    } else if index == 0 {
        (len - 1) as usize
    } else if index - 1 < len {
        (index - 1) as usize
    } else {
        (len - 1) as usize
    }
}

/// A scroll offset one line further down a text of `lines` lines: it stops at
/// the last line.
pub open spec fn scrolled_down(offset: usize, lines: nat) -> usize {
    if offset + 1 < lines {
        (offset + 1) as usize
    } else {
        offset
    }
}

/// A scroll offset one line further up: it stops at the first line.
pub open spec fn scrolled_up(offset: usize) -> usize {
    if offset > 0 {
        (offset - 1) as usize
    } else {
        0
    }
}

fn step_forward(index: usize, len: usize) -> (r: usize)
    ensures
        r == next_index(index, len as nat),
{
    if len == 0 {
        index
    } else if index < len - 1 {
        index + 1
    } else {
        0
    }
}

fn step_back(index: usize, len: usize) -> (r: usize)
    ensures
        r == previous_index(index, len as nat),
{
    if len == 0 {
        index
    } else if index == 0 {
        len - 1
    } else if index - 1 < len {
        index - 1
    } else {
        len - 1
    }
}

fn scroll_down(offset: usize, lines: usize) -> (r: usize)
    ensures
        r == scrolled_down(offset, lines as nat),
{
    if lines > 0 && offset < lines - 1 {
        offset + 1
    } else {
        offset
    }
}

fn scroll_up(offset: usize) -> (r: usize)
    ensures
        r == scrolled_up(offset),
{
    if offset > 0 {
        offset - 1
    } else {
        0
    }
}

/// Application state for the terminal user interface.
pub struct AppState {
    /// All commit groups available for processing
    pub groups: Vec<ChangeGroup>,
    /// Index of the currently selected group
    pub selected_index: usize,
    /// The panel that takes the navigation keys
    pub active_panel: ActivePanel,
    /// Index of the selected file among the files of the selected group
    pub selected_file_index: usize,
    /// First line shown of the commit message
    pub commit_message_scroll_offset: usize,
    /// The embedded editor
    pub editor: CommitMessageEditor,
    /// Status message to display to the user
    pub status_message: String,
    /// Whether the status popup takes the keys
    pub popup_active: bool,
    /// First line shown of the status message
    pub popup_scroll_offset: usize,
    /// Whether the diff viewer is shown
    pub show_diff_viewer: bool,
    /// Path of the file whose diff is shown
    pub diff_file_path: String,
    /// The diff that is shown
    pub diff_content: String,
    /// First line shown of the diff
    pub diff_scroll_offset: usize,
    /// Whether the help on the editor's keys is shown
    pub show_editor_help: bool,
}

/// The group at `index`, if there is one.
pub open spec fn group_at(groups: Seq<ChangeGroup>, index: usize) -> Option<ChangeGroup> {
    if index < groups.len() {
        Some(groups[index as int])
    } else {
        None
    }
}

/// Number of files of the group at `index`; none where there is no group.
pub open spec fn file_count(groups: Seq<ChangeGroup>, index: usize) -> nat {
    match group_at(groups, index) {
        Some(g) => g.files@.len(),
        None => 0,
    }
}

/// Number of lines of the message of the group at `index`; none where there
/// is no group.
pub open spec fn message_lines(groups: Seq<ChangeGroup>, index: usize) -> nat {
    match group_at(groups, index) {
        Some(g) => split_lines(g.message_spec()).len(),
        None => 0,
    }
}

impl AppState {
    /// The cursors point at what exists: the selected index at a group, the
    /// selected file index at a file of that group; each is zero where
    /// there is nothing to point at.
    pub open spec fn wf(&self) -> bool {
        &&& self.groups@.len() == 0 ==> self.selected_index == 0
        &&& self.groups@.len() > 0 ==> self.selected_index < self.groups@.len()
        &&& file_count(self.groups@, self.selected_index) == 0 ==> self.selected_file_index == 0
        &&& file_count(self.groups@, self.selected_index) > 0 ==> self.selected_file_index
            < file_count(self.groups@, self.selected_index)
    }

    /// The selected group, if there is one.
    pub open spec fn selected(&self) -> Option<ChangeGroup> {
        group_at(self.groups@, self.selected_index)
    }

    /// Creates a new application state with the given commit groups: the
    /// first group and the Groups panel are selected, nothing is overlaid,
    /// and the status line tells the keys.
    pub fn new(groups: Vec<ChangeGroup>) -> (r: Self)
        ensures
            r.groups == groups,
            r.selected_index == 0,
            r.active_panel == ActivePanel::Groups,
            r.selected_file_index == 0,
            r.commit_message_scroll_offset == 0,
            !r.editor.active(),
            r.status_message@ == "↑/↓ select, e edit, c commit group, C commit all, q quit"@,
            !r.popup_active,
            r.popup_scroll_offset == 0,
            !r.show_diff_viewer,
            r.diff_file_path@.len() == 0,
            r.diff_content@.len() == 0,
            r.diff_scroll_offset == 0,
            !r.show_editor_help,
            r.wf(),
    {
        let hint: Vec<char> = chars_of("↑/↓ select, e edit, c commit group, C commit all, q quit");
        Self {
            groups,
            selected_index: 0,
            active_panel: ActivePanel::Groups,
            selected_file_index: 0,
            commit_message_scroll_offset: 0,
            editor: CommitMessageEditor::empty(),
            status_message: string_of(&hint),
            popup_active: false,
            popup_scroll_offset: 0,
            show_diff_viewer: false,
            diff_file_path: String::new(),
            diff_content: String::new(),
            diff_scroll_offset: 0,
            show_editor_help: false,
        }
    }

    /// Returns a mutable reference to the currently selected group.
    pub fn selected_group_mut(&mut self) -> (r: Option<&mut ChangeGroup>)
        ensures
            match r {
                Some(g) => {
                    &&& old(self).selected_index < old(self).groups@.len()
                    &&& *g == old(self).groups@[old(self).selected_index as int]
                    &&& final(self).groups@ == old(self).groups@.update(
                        old(self).selected_index as int,
                        *final(g),
                    )
                },
                None => old(self).selected_index >= old(self).groups@.len() && final(self).groups@
                    == old(self).groups@,
            },
            final(self).selected_index == old(self).selected_index,
            final(self).active_panel == old(self).active_panel,
            final(self).selected_file_index == old(self).selected_file_index,
            final(self).editor == old(self).editor,
            final(self).status_message == old(self).status_message,
    {
        if self.selected_index < self.groups.len() {
            Some(&mut self.groups[self.selected_index])
        } else {
            None
        }
    }

    /// Returns a reference to the currently selected group.
    pub fn selected_group(&self) -> (r: Option<&ChangeGroup>)
        ensures
            match r {
                Some(g) => self.selected() == Some(*g),
                None => self.selected() is None,
            },
    {
        if self.selected_index < self.groups.len() {
            Some(&self.groups[self.selected_index])
        } else {
            None
        }
    }

    /// Returns a reference to the selected file of the selected group.
    pub fn selected_file(&self) -> (r: Option<&ChangedFile>)
        ensures
            match r {
                Some(f) => self.selected() matches Some(g) && self.selected_file_index
                    < g.files@.len() && *f == g.files@[self.selected_file_index as int],
                None => match self.selected() {
                    Some(g) => self.selected_file_index >= g.files@.len(),
                    None => true,
                },
            },
    {
        if self.selected_index < self.groups.len() {
            let group = &self.groups[self.selected_index];
            if self.selected_file_index < group.files.len() {
                return Some(&group.files[self.selected_file_index]);
            }
        }
        None
    }

    /// Moves selection to the next group (wraps around) and resets the file
    /// cursor and the scroll of the message.
    pub fn select_next(&mut self)
        ensures
            *final(self) == (AppState {
                selected_index: next_index(old(self).selected_index, old(self).groups@.len()),
                selected_file_index: if old(self).groups@.len() == 0 {
                    old(self).selected_file_index
                } else {
                    0
                },
                commit_message_scroll_offset: if old(self).groups@.len() == 0 {
                    old(self).commit_message_scroll_offset
                } else {
                    0
                },
                ..*old(self)
            }),
            old(self).wf() ==> final(self).wf(),
    {
        if self.groups.len() > 0 {
            self.selected_index = step_forward(self.selected_index, self.groups.len());
            self.selected_file_index = 0;
            self.commit_message_scroll_offset = 0;
        }
    }

    /// Moves selection to the previous group (wraps around) and resets the
    /// file cursor and the scroll of the message.
    pub fn select_previous(&mut self)
        ensures
            *final(self) == (AppState {
                selected_index: previous_index(old(self).selected_index, old(self).groups@.len()),
                selected_file_index: if old(self).groups@.len() == 0 {
                    old(self).selected_file_index
                } else {
                    0
                },
                commit_message_scroll_offset: if old(self).groups@.len() == 0 {
                    old(self).commit_message_scroll_offset
                } else {
                    0
                },
                ..*old(self)
            }),
            old(self).wf() ==> final(self).wf(),
    {
        if self.groups.len() > 0 {
            self.selected_index = step_back(self.selected_index, self.groups.len());
            self.selected_file_index = 0;
            self.commit_message_scroll_offset = 0;
        }
    }

    /// Moves the file cursor to the next file of the selected group (wraps
    /// around); does nothing where the group has no files.
    pub fn select_next_file(&mut self)
        ensures
            *final(self) == (AppState {
                selected_file_index: next_index(
                    old(self).selected_file_index,
                    file_count(old(self).groups@, old(self).selected_index),
                ),
                ..*old(self)
            }),
            old(self).wf() ==> final(self).wf(),
    {
        if self.selected_index < self.groups.len() {
            let count: usize = self.groups[self.selected_index].files.len();
            self.selected_file_index = step_forward(self.selected_file_index, count);
        }
    }

    /// Moves the file cursor to the previous file of the selected group
    /// (wraps around); does nothing where the group has no files.
    pub fn select_previous_file(&mut self)
        ensures
            *final(self) == (AppState {
                selected_file_index: previous_index(
                    old(self).selected_file_index,
                    file_count(old(self).groups@, old(self).selected_index),
                ),
                ..*old(self)
            }),
            old(self).wf() ==> final(self).wf(),
    {
        if self.selected_index < self.groups.len() {
            let count: usize = self.groups[self.selected_index].files.len();
            self.selected_file_index = step_back(self.selected_file_index, count);
        }
    }

    /// Makes the next panel the active one.
    pub fn activate_next_panel(&mut self)
        ensures
            *final(self) == (AppState {
                active_panel: old(self).active_panel.next_spec(),
                ..*old(self)
            }),
    {
        self.active_panel = self.active_panel.next();
    }

    /// Makes the previous panel the active one.
    pub fn activate_previous_panel(&mut self)
        ensures
            *final(self) == (AppState {
                active_panel: old(self).active_panel.previous_spec(),
                ..*old(self)
            }),
    {
        self.active_panel = self.active_panel.previous();
    }

    /// Scrolls the commit message one line down, up to its last line.
    pub fn scroll_commit_message_down(&mut self)
        ensures
            *final(self) == (AppState {
                commit_message_scroll_offset: scrolled_down(
                    old(self).commit_message_scroll_offset,
                    message_lines(old(self).groups@, old(self).selected_index),
                ),
                ..*old(self)
            }),
    {
        let lines: usize = if self.selected_index < self.groups.len() {
            let message: String = self.groups[self.selected_index].full_message();
            line_count(message.as_str())
        } else {
            0
        };
        self.commit_message_scroll_offset = scroll_down(self.commit_message_scroll_offset, lines);
    }

    /// Scrolls the commit message one line up.
    pub fn scroll_commit_message_up(&mut self)
        ensures
            *final(self) == (AppState {
                commit_message_scroll_offset: scrolled_up(old(self).commit_message_scroll_offset),
                ..*old(self)
            }),
    {
        self.commit_message_scroll_offset = scroll_up(self.commit_message_scroll_offset);
    }

    /// Scrolls the status popup one line down, up to its last line.
    pub fn scroll_popup_down(&mut self)
        ensures
            *final(self) == (AppState {
                popup_scroll_offset: scrolled_down(
                    old(self).popup_scroll_offset,
                    split_lines(old(self).status_message@).len(),
                ),
                ..*old(self)
            }),
    {
        let lines: usize = line_count(self.status_message.as_str());
        self.popup_scroll_offset = scroll_down(self.popup_scroll_offset, lines);
    }

    /// Scrolls the status popup one line up.
    pub fn scroll_popup_up(&mut self)
        ensures
            *final(self) == (AppState {
                popup_scroll_offset: scrolled_up(old(self).popup_scroll_offset),
                ..*old(self)
            }),
    {
        self.popup_scroll_offset = scroll_up(self.popup_scroll_offset);
    }

    /// Scrolls the diff viewer one line down, up to its last line.
    pub fn scroll_diff_down(&mut self)
        ensures
            *final(self) == (AppState {
                diff_scroll_offset: scrolled_down(
                    old(self).diff_scroll_offset,
                    split_lines(old(self).diff_content@).len(),
                ),
                ..*old(self)
            }),
    {
        let lines: usize = line_count(self.diff_content.as_str());
        self.diff_scroll_offset = scroll_down(self.diff_scroll_offset, lines);
    }

    /// Scrolls the diff viewer one line up.
    pub fn scroll_diff_up(&mut self)
        ensures
            *final(self) == (AppState {
                diff_scroll_offset: scrolled_up(old(self).diff_scroll_offset),
                ..*old(self)
            }),
    {
        self.diff_scroll_offset = scroll_up(self.diff_scroll_offset);
    }

    /// Sets the status message and opens the popup on its first line.
    pub fn set_status(&mut self, message: &str)
        ensures
            final(self).status_message@ == message@,
            final(self).popup_active,
            final(self).popup_scroll_offset == 0,
            *final(self) == (AppState {
                status_message: final(self).status_message,
                popup_active: true,
                popup_scroll_offset: 0,
                ..*old(self)
            }),
    {
        let text: Vec<char> = chars_of(message);
        self.status_message = string_of(&text);
        self.popup_active = true;
        self.popup_scroll_offset = 0;
    }

    /// Clears the status message and closes the popup.
    pub fn clear_status(&mut self)
        ensures
            final(self).status_message@.len() == 0,
            !final(self).popup_active,
            final(self).popup_scroll_offset == 0,
            *final(self) == (AppState {
                status_message: final(self).status_message,
                popup_active: false,
                popup_scroll_offset: 0,
                ..*old(self)
            }),
    {
        self.status_message = String::new();
        self.popup_active = false;
        self.popup_scroll_offset = 0;
    }

    /// Opens the diff viewer on the diff of one file, at its first line.
    pub fn show_diff(&mut self, file_path: String, content: String)
        ensures
            *final(self) == (AppState {
                show_diff_viewer: true,
                diff_file_path: file_path,
                diff_content: content,
                diff_scroll_offset: 0,
                ..*old(self)
            }),
    {
        self.show_diff_viewer = true;
        self.diff_file_path = file_path;
        self.diff_content = content;
        self.diff_scroll_offset = 0;
    }

    /// Closes the diff viewer and forgets the diff.
    pub fn close_diff(&mut self)
        ensures
            !final(self).show_diff_viewer,
            final(self).diff_file_path@.len() == 0,
            final(self).diff_content@.len() == 0,
            final(self).diff_scroll_offset == 0,
            *final(self) == (AppState {
                show_diff_viewer: false,
                diff_file_path: final(self).diff_file_path,
                diff_content: final(self).diff_content,
                diff_scroll_offset: 0,
                ..*old(self)
            }),
    {
        self.show_diff_viewer = false;
        self.diff_file_path = String::new();
        self.diff_content = String::new();
        self.diff_scroll_offset = 0;
    }

    /// Shows the help on the editor's keys if it is hidden, hides it if it
    /// is shown.
    pub fn toggle_editor_help(&mut self)
        ensures
            *final(self) == (AppState {
                show_editor_help: !old(self).show_editor_help,
                ..*old(self)
            }),
    {
        self.show_editor_help = !self.show_editor_help;
    }

    /// Hides the help on the editor's keys.
    pub fn close_editor_help(&mut self)
        ensures
            *final(self) == (AppState { show_editor_help: false, ..*old(self) }),
    {
        self.show_editor_help = false;
    }
}

} // verus!
