//! Rules around the repository: which paths are safe to hand to git, which
//! status entries count as changes, and how a ticket is read off a branch
//! name.

use crate::text::{
    append, append_str, begins, chars_of, contains_seq, decimal, decimal_of, find_char_from, has,
    starts_with, string_of,
};
use crate::types::{
    has_any, opt_view, ChangeGroup, ChangedFile, INDEX_DELETED, INDEX_MODIFIED, INDEX_NEW,
    INDEX_RENAMED, INDEX_TYPECHANGE, WT_DELETED, WT_MODIFIED, WT_NEW, WT_RENAMED, WT_TYPECHANGE,
};
use regex::Regex;
use vstd::prelude::*;

verus! {

/// A path that may be handed to git: relative, without a reference to a
/// parent directory, and without a NUL character.
pub open spec fn valid_path(path: Seq<char>) -> bool {
    &&& !starts_with(path, "/"@)
    &&& !starts_with(path, "\\"@)
    &&& !contains_seq(path, ".."@)
    &&& !contains_seq(path, "\0"@)
}

/// Validates that a path does not contain dangerous patterns.
pub fn is_valid_path(path: &str) -> (b: bool)
    ensures
        b == valid_path(path@),
{
    let p: Vec<char> = chars_of(path);
    if begins(&p, "/") || begins(&p, "\\") {
        return false;
    }
    if has(&p, "..") {
        return false;
    }
    if has(&p, "\0") {
        return false;
    }
    true
}

/// The flags that make a status entry a change: every index flag and every
/// working-tree flag, the one for new files in the working tree only where
/// untracked files are asked for.
pub open spec fn relevant_flags(include_untracked: bool) -> u32 {
    let always: u32 = (INDEX_NEW | INDEX_MODIFIED | INDEX_DELETED | INDEX_RENAMED
        | INDEX_TYPECHANGE | WT_MODIFIED | WT_DELETED | WT_RENAMED | WT_TYPECHANGE);
    if include_untracked {
        always | WT_NEW
    } else {
        always
    }
}

/// A status entry is kept as a change: it carries a relevant flag and its
/// path is valid.
pub open spec fn is_change(file: ChangedFile, include_untracked: bool) -> bool {
    has_any(file.status, relevant_flags(include_untracked)) && valid_path(file.path@)
}

/// A status entry is kept as an untracked file: it is new in the working
/// tree and its path is valid.
pub open spec fn is_untracked(file: ChangedFile) -> bool {
    file.status & WT_NEW == WT_NEW && valid_path(file.path@)
}

/// Tells whether a status entry is a change.
pub fn counts_as_change(file: &ChangedFile, include_untracked: bool) -> (b: bool)
    ensures
        b == is_change(*file, include_untracked),
{
    let always: u32 = INDEX_NEW | INDEX_MODIFIED | INDEX_DELETED | INDEX_RENAMED
        | INDEX_TYPECHANGE | WT_MODIFIED | WT_DELETED | WT_RENAMED | WT_TYPECHANGE;
    let flags: u32 = if include_untracked {
        always | WT_NEW
    } else {
        always
    };
    if file.status & flags == 0 {
        return false;
    }
    is_valid_path(file.path.as_str())
}

/// Tells whether a status entry is an untracked file.
pub fn counts_as_untracked(file: &ChangedFile) -> (b: bool)
    ensures
        b == is_untracked(*file),
{
    if file.status & WT_NEW != WT_NEW {
        return false;
    }
    is_valid_path(file.path.as_str())
}

/// The entries among the first `n` of `entries` that are changes, in order.
pub open spec fn changes_among(entries: Seq<ChangedFile>, include_untracked: bool, n: int) -> Seq<
    ChangedFile,
>
    decreases n,
{
    if n <= 0 {
        Seq::empty()
    } else if is_change(entries[n - 1], include_untracked) {
        changes_among(entries, include_untracked, n - 1).push(entries[n - 1])
    } else {
        changes_among(entries, include_untracked, n - 1)
    }
}

/// The entries among the first `n` of `entries` that are untracked files,
/// in order.
pub open spec fn untracked_among(entries: Seq<ChangedFile>, n: int) -> Seq<ChangedFile>
    decreases n,
{
    if n <= 0 {
        Seq::empty()
    } else if is_untracked(entries[n - 1]) {
        untracked_among(entries, n - 1).push(entries[n - 1])
    } else {
        untracked_among(entries, n - 1)
    }
}

/// Keeps the status entries that are changes, in their order.
pub fn select_changed_files(entries: Vec<ChangedFile>, include_untracked: bool) -> (r: Vec<
    ChangedFile,
>)
    ensures
        r@ == changes_among(entries@, include_untracked, entries@.len() as int),
{
    let mut kept: Vec<ChangedFile> = Vec::new();
    let mut i: usize = 0;
    while i < entries.len()
        invariant
            i <= entries.len(),
            kept@ == changes_among(entries@, include_untracked, i as int),
        decreases entries.len() - i,
    {
        if counts_as_change(&entries[i], include_untracked) {
            kept.push(entries[i].duplicate());
        }
        i += 1;
    }
    kept
}

/// Keeps the status entries that are untracked files, in their order.
pub fn select_untracked_files(entries: Vec<ChangedFile>) -> (r: Vec<ChangedFile>)
    ensures
        r@ == untracked_among(entries@, entries@.len() as int),
{
    let mut kept: Vec<ChangedFile> = Vec::new();
    let mut i: usize = 0;
    while i < entries.len()
        invariant
            i <= entries.len(),
            kept@ == untracked_among(entries@, i as int),
        decreases entries.len() - i,
    {
        if counts_as_untracked(&entries[i]) {
            kept.push(entries[i].duplicate());
        }
        i += 1;
    }
    kept
}

/// What the user wants done with the untracked files.
#[derive(Debug, Clone, Copy, PartialEq, Eq, Structural)]
pub enum UntrackedChoice {
    /// Include all of them
    All,
    /// Include none of them
    Nothing,
    /// Include the ones that the user picks by number
    Select,
    /// The answer names no choice; all are included
    Unknown,
}

/// The choice that an answer names, once trimmed and in lowercase: nothing,
/// `a` or `all` for all; `n` or `none` for none; `s` or `select` for a
/// selection.
pub open spec fn choice_named(answer: Seq<char>) -> UntrackedChoice {
    if answer.len() == 0 || answer == "a"@ || answer == "all"@ {
        UntrackedChoice::All
    } else if answer == "n"@ || answer == "none"@ {
        UntrackedChoice::Nothing
    } else if answer == "s"@ || answer == "select"@ {
        UntrackedChoice::Select
    } else {
        UntrackedChoice::Unknown
    }
}

/// Tells the choice that an answer names which is trimmed and in lowercase
/// already.
pub fn choice_from(answer: &str) -> (r: UntrackedChoice)
    ensures
        r == choice_named(answer@),
{
    let a: Vec<char> = chars_of(answer);
    if a.len() == 0 || crate::text::is(&a, "a") || crate::text::is(&a, "all") {
        UntrackedChoice::All
    } else if crate::text::is(&a, "n") || crate::text::is(&a, "none") {
        UntrackedChoice::Nothing
    } else if crate::text::is(&a, "s") || crate::text::is(&a, "select") {
        UntrackedChoice::Select
    } else {
        UntrackedChoice::Unknown
    }
}

/// Reads the user's choice off a line of input: the line is trimmed and put
/// in lowercase, then read as `choice_from` reads it.
pub fn parse_untracked_choice(input: &str) -> (r: UntrackedChoice)
    ensures
        r == choice_named(crate::text::lowercase(crate::text::trim(input@))),
{
    let chars: Vec<char> = chars_of(input);
    let t: Vec<char> = crate::text::trimmed(&chars);
    let text: String = string_of(&t);
    let lower: String = crate::text::to_lowercase(text.as_str());
    choice_from(lower.as_str())
}

/// The value of a decimal digit.
pub open spec fn digit_value(c: char) -> Option<nat> {
    if '0' <= c <= '9' {
        Some((c as u32 - '0' as u32) as nat)
    } else {
        None
    }
}

/// The number that a text of decimal digits writes; none if the text is
/// empty or holds anything but digits.
pub open spec fn digits_value(s: Seq<char>) -> Option<nat>
    decreases s.len(),
{
    if s.len() == 0 {
        None
    } else {
        match digit_value(s.last()) {
            Some(d) => if s.len() == 1 {
                Some(d)
            } else {
                match digits_value(s.drop_last()) {
                    Some(v) => Some(v * 10 + d),
                    None => None,
                }
            },
            None => None,
        }
    }
}

/// The number that a text writes: decimal digits, after a plus sign or
/// without one; none if it does not fit the machine's word.
pub open spec fn number_written(s: Seq<char>) -> Option<usize> {
    let body = if s.len() > 0 && s[0] == '+' {
        s.subrange(1, s.len() as int)
    } else {
        s
    };
    match digits_value(body) {
        Some(v) => if v <= usize::MAX {
            Some(v as usize)
        } else {
            None
        },
        None => None,
    }
}

/// More digits never make a number smaller, and digits after something else
/// do not make a number.
proof fn lemma_digits_grow(s: Seq<char>, i: int)
    requires
        1 <= i <= s.len(),
    ensures
        digits_value(s.subrange(0, i)) is None ==> digits_value(s) is None,
        digits_value(s) matches Some(v) ==> digits_value(s.subrange(0, i)) matches Some(w) && w
            <= v,
    decreases s.len() - i,
{
    if i < s.len() {
        lemma_digits_grow(s, i + 1);
        assert(s.subrange(0, i + 1).drop_last() == s.subrange(0, i));
    } else {
        assert(s.subrange(0, i) == s);
    }
}

/// Reads a number as the user writes it.
pub fn parse_number(text: &str) -> (r: Option<usize>)
    ensures
        r == number_written(text@),
{
    let s: Vec<char> = chars_of(text);
    let start: usize = if s.len() > 0 && s[0] == '+' {
        1
    } else {
        0
    };
    let ghost body = s@.subrange(start as int, s.len() as int);
    assert(s@.subrange(0, s.len() as int) == s@);
    if start >= s.len() {
        assert(body.len() == 0);
        return None;
    }
    let mut value: usize = 0;
    let mut i: usize = start;
    while i < s.len()
        invariant
            start <= i <= s.len(),
            start < s.len(),
            s@ == text@,
            body == (if s@.len() > 0 && s@[0] == '+' {
                s@.subrange(1, s@.len() as int)
            } else {
                s@
            }),
            body == s@.subrange(start as int, s.len() as int),
            i > start ==> digits_value(body.subrange(0, i - start)) == Some(value as nat),
            i == start ==> value == 0,
        decreases s.len() - i,
    {
        let c: char = s[i];
        let ghost upto = body.subrange(0, i - start + 1);
        proof {
            assert(upto.last() == c);
            assert(upto.drop_last() == body.subrange(0, i - start));
            lemma_digits_grow(body, i - start + 1);
        }
        if c < '0' || c > '9' {
            return None;
        }
        let d: usize = (c as u32 - '0' as u32) as usize;
        if value > (usize::MAX - d) / 10 {
            return None;
        }
        value = value * 10 + d;
        i += 1;
    }
    assert(body.subrange(0, body.len() as int) == body);
    Some(value)
}

/// The parts of a text between its commas.
pub open spec fn comma_parts(s: Seq<char>) -> Seq<Seq<char>>
    decreases s.len(),
{
    let k = crate::text::index_of_char(s, ',');
    if k < 0 || k >= s.len() {
        seq![s]
    } else {
        seq![s.subrange(0, k)] + comma_parts(s.subrange(k + 1, s.len() as int))
    }
}

/// The index that a part of a selection picks among `count` files: the
/// number it writes, less one, if that number is one of 1 to `count`.
pub open spec fn index_picked(part: Seq<char>, count: usize) -> Option<usize> {
    match number_written(crate::text::trim(part)) {
        Some(n) => if 0 < n <= count {
            Some((n - 1) as usize)
        } else {
            None
        },
        None => None,
    }
}

/// The indices that these parts pick, in order.
pub open spec fn indices_picked(parts: Seq<Seq<char>>, count: usize) -> Seq<usize>
    decreases parts.len(),
{
    if parts.len() == 0 {
        Seq::empty()
    } else {
        match index_picked(parts[0], count) {
            Some(i) => seq![i] + indices_picked(parts.drop_first(), count),
            None => indices_picked(parts.drop_first(), count),
        }
    }
}

/// Reads the numbers of a selection such as `1,3,5` and returns the indices
/// they pick among `count` files; what is no number from 1 to `count` is
/// passed over.
pub fn parse_selection(selection: &str, count: usize) -> (r: Vec<usize>)
    ensures
        r@ == indices_picked(comma_parts(crate::text::trim(selection@)), count),
        forall|k: int| 0 <= k < r@.len() ==> #[trigger] r@[k] < count,
{
    let chars: Vec<char> = chars_of(selection);
    let s: Vec<char> = crate::text::trimmed(&chars);
    let n: usize = s.len();
    let mut picked: Vec<usize> = Vec::new();
    let mut pos: usize = 0;
    let mut done: bool = false;
    assert(s@.subrange(0, n as int) == s@);
    while !done
        invariant
            pos <= n,
            n == s.len(),
            forall|k: int| 0 <= k < picked@.len() ==> #[trigger] picked@[k] < count,
            !done ==> indices_picked(comma_parts(s@), count) == picked@ + indices_picked(
                comma_parts(s@.subrange(pos as int, n as int)),
                count,
            ),
            done ==> indices_picked(comma_parts(s@), count) == picked@,
        decreases n - pos + (if done {
            0int
        } else {
            1int
        }),
    {
        let ghost rest = s@.subrange(pos as int, n as int);
        let ghost before = picked@;
        let k: usize = find_char_from(&s, ',', pos);
        let part: Vec<char> = crate::text::slice_of(&s, pos, k);
        let t: Vec<char> = crate::text::trimmed(&part);
        let text: String = string_of(&t);
        let index: Option<usize> = match parse_number(text.as_str()) {
            Some(number) => if 0 < number && number <= count {
                Some(number - 1)
            } else {
                None
            },
            None => None,
        };
        proof {
            assert(rest.subrange(0, k - pos) == part@);
            assert(index == index_picked(part@, count));
            let parts = comma_parts(rest);
            if k < n {
                let after = s@.subrange(k + 1, n as int);
                assert(rest.subrange(k - pos + 1, rest.len() as int) == after);
                assert(parts == seq![part@] + comma_parts(after));
                assert(parts[0] == part@);
                assert(parts.drop_first() == comma_parts(after));
            } else {
                assert(part@ == rest);
                assert(parts == seq![rest]);
                assert(parts.drop_first() == Seq::<Seq<char>>::empty());
                assert(indices_picked(parts.drop_first(), count) == Seq::<usize>::empty());
            }
        }
        match index {
            Some(i) => {
                picked.push(i);
                assert(picked@ == before + seq![i]);
                assert(before + (seq![i] + indices_picked(comma_parts(rest).drop_first(), count))
                    == picked@ + indices_picked(comma_parts(rest).drop_first(), count));
            },
            None => {},
        }
        if k < n {
            pos = k + 1;
        } else {
            done = true;
            assert(picked@ + Seq::<usize>::empty() == picked@);
        }
    }
    picked
}

/// The files at these indices, in the order of the indices.
pub open spec fn files_at(files: Seq<ChangedFile>, indices: Seq<usize>) -> Seq<ChangedFile> {
    Seq::new(indices.len(), |k: int| files[indices[k] as int])
}

/// Picks the untracked files that a selection such as `1,3,5` names: the
/// files with these numbers, counted from one, in the order of the
/// selection; all files where the selection names none.
pub fn pick_untracked(untracked: Vec<ChangedFile>, selection: &str) -> (r: Vec<ChangedFile>)
    ensures
        ({
            let indices = indices_picked(
                comma_parts(crate::text::trim(selection@)),
                untracked@.len() as usize,
            );
            r@ == (if indices.len() == 0 {
                untracked@
            } else {
                files_at(untracked@, indices)
            })
        }),
{
    let indices: Vec<usize> = parse_selection(selection, untracked.len());
    select_untracked(untracked, &indices)
}

/// The files at the indices, in that order; all files where no index is
/// given.
fn select_untracked(untracked: Vec<ChangedFile>, indices: &Vec<usize>) -> (r: Vec<ChangedFile>)
    requires
        forall|k: int| 0 <= k < indices@.len() ==> #[trigger] indices@[k] < untracked@.len(),
    ensures
        r@ == (if indices@.len() == 0 {
            untracked@
        } else {
            files_at(untracked@, indices@)
        }),
{
    if indices.len() == 0 {
        return untracked;
    }
    let mut selected: Vec<ChangedFile> = Vec::new();
    let mut k: usize = 0;
    while k < indices.len()
        invariant
            k <= indices.len(),
            forall|j: int| 0 <= j < indices@.len() ==> #[trigger] indices@[j] < untracked@.len(),
            selected@.len() == k,
            forall|j: int| 0 <= j < k ==> #[trigger] selected@[j] == untracked@[indices@[j] as int],
        decreases indices.len() - k,
    {
        selected.push(untracked[indices[k]].duplicate());
        k += 1;
    }
    assert(selected@ =~= files_at(untracked@, indices@));
    selected
}

/// The pattern of a ticket reference: capital letters, a dash, digits.
pub const TICKET_PATTERN: &'static str = "([A-Z]+-\\d+)";

/// What the first capture group of the leftmost match of `pattern` in `text`
/// holds; none if the pattern is no regular expression, does not match, or
/// the group took no part in the match.
pub uninterp spec fn first_capture(pattern: Seq<char>, text: Seq<char>) -> Option<Seq<char>>;

/// `Regex::new`, `Regex::captures` and `Captures::get`: the text of the
/// first capture group in the leftmost match, which is a part of `text`.
#[verifier::external_body]
fn capture_first(pattern: &str, text: &str) -> (r: Option<String>)
    ensures
        opt_view(r) == first_capture(pattern@, text@),
        r matches Some(m) ==> contains_seq(text@, m@),
{
    let re = Regex::new(pattern).ok()?;
    let caps = re.captures(text)?;
    Some(caps.get(1)?.as_str().to_string())
}

/// Extracts a ticket reference from a branch name: the first part of the
/// name that has the shape of a ticket, if any.
pub fn extract_ticket_from_branch(branch: &str) -> (r: Option<String>)
    ensures
        opt_view(r) == first_capture(TICKET_PATTERN@, branch@),
        r matches Some(t) ==> contains_seq(branch@, t@),
{
    capture_first(TICKET_PATTERN, branch)
}

/// The path of the first file of the group that may not be handed to git.
pub open spec fn first_invalid_path(paths: Seq<Seq<char>>) -> Option<Seq<char>>
    decreases paths.len(),
{
    if paths.len() == 0 {
        None
    } else if !valid_path(paths[0]) {
        Some(paths[0])
    } else {
        first_invalid_path(paths.drop_first())
    }
}

/// The failures that stop a commit before git is asked.
#[derive(Debug, Clone)]
pub enum CommitError {
    /// A file of the group has a path that may not be handed to git
    InvalidPath(String),
}

impl CommitError {
    /// The text of this failure.
    pub open spec fn message_spec(&self) -> Seq<char> {
        match self {
            CommitError::InvalidPath(p) => "Invalid file path: "@ + p@,
        }
    }

    /// Renders the failure.
    pub fn message(&self) -> (r: String)
        ensures
            r@ == self.message_spec(),
    {
        match self {
            CommitError::InvalidPath(p) => {
                let mut out: Vec<char> = chars_of("Invalid file path: ");
                append_str(&mut out, p.as_str());
                string_of(&out)
            },
        }
    }
}

/// Checks the paths of a group before it is committed: fails on the first
/// one that is not valid.
pub fn check_group_paths(group: &ChangeGroup) -> (r: Result<(), CommitError>)
    ensures
        match r {
            Ok(_) => first_invalid_path(group.paths()) is None,
            Err(CommitError::InvalidPath(p)) => first_invalid_path(group.paths()) == Some(p@),
        },
{
    let ghost paths = group.paths();
    let mut i: usize = 0;
    assert(paths.subrange(0, paths.len() as int) == paths);
    while i < group.files.len()
        invariant
            i <= group.files.len(),
            paths == group.paths(),
            first_invalid_path(paths) == first_invalid_path(
                paths.subrange(i as int, paths.len() as int),
            ),
        decreases group.files.len() - i,
    {
        let ghost rest = paths.subrange(i as int, paths.len() as int);
        assert(rest[0] == group.files@[i as int].path@);
        assert(rest.drop_first() == paths.subrange(i + 1, paths.len() as int));
        if !is_valid_path(group.files[i].path.as_str()) {
            return Err(CommitError::InvalidPath(group.files[i].path.clone()));
        }
        i += 1;
    }
    Ok(())
}

/// The arguments that follow `git` to stage or to commit the files of a
/// group: the words in `head`, then every path of the group.
pub open spec fn git_arguments(head: Seq<Seq<char>>, paths: Seq<Seq<char>>) -> Seq<Seq<char>> {
    head + paths
}

/// The arguments that stage the files of a group in the repository at
/// `repo_path`: `-C <repo> add -- <paths>`.
pub fn stage_arguments(repo_path: &str, group: &ChangeGroup) -> (r: Vec<String>)
    ensures
        crate::text::string_views(r@) == git_arguments(
            seq!["-C"@, repo_path@, "add"@, "--"@],
            group.paths(),
        ),
{
    let mut args: Vec<String> = Vec::new();
    args.push(string_of(&chars_of("-C")));
    args.push(string_of(&chars_of(repo_path)));
    args.push(string_of(&chars_of("add")));
    args.push(string_of(&chars_of("--")));
    let ghost head = crate::text::string_views(args@);
    assert(head =~= seq!["-C"@, repo_path@, "add"@, "--"@]);
    push_paths(&mut args, group);
    proof {
        let got = crate::text::string_views(args@);
        let want = git_arguments(head, group.paths());
        assert forall|k: int| 0 <= k < got.len() implies got[k] == want[k] by {
            if k >= 4 {
                assert(args@[4 + (k - 4)]@ == group.files@[k - 4].path@);
            }
        }
        assert(got =~= want);
    }
    args
}

/// The arguments that commit the files of a group in the repository at
/// `repo_path` with the message in `message_file`:
/// `-C <repo> commit -F <file> -- <paths>`.
pub fn commit_arguments(repo_path: &str, message_file: &str, group: &ChangeGroup) -> (r: Vec<
    String,
>)
    ensures
        crate::text::string_views(r@) == git_arguments(
            seq!["-C"@, repo_path@, "commit"@, "-F"@, message_file@, "--"@],
            group.paths(),
        ),
{
    let mut args: Vec<String> = Vec::new();
    args.push(string_of(&chars_of("-C")));
    args.push(string_of(&chars_of(repo_path)));
    args.push(string_of(&chars_of("commit")));
    args.push(string_of(&chars_of("-F")));
    args.push(string_of(&chars_of(message_file)));
    args.push(string_of(&chars_of("--")));
    let ghost head = crate::text::string_views(args@);
    assert(head =~= seq!["-C"@, repo_path@, "commit"@, "-F"@, message_file@, "--"@]);
    push_paths(&mut args, group);
    proof {
        let got = crate::text::string_views(args@);
        let want = git_arguments(head, group.paths());
        assert forall|k: int| 0 <= k < got.len() implies got[k] == want[k] by {
            if k >= 6 {
                assert(args@[6 + (k - 6)]@ == group.files@[k - 6].path@);
            }
        }
        assert(got =~= want);
    }
    args
}

fn push_paths(args: &mut Vec<String>, group: &ChangeGroup)
    ensures
        final(args)@.len() == old(args)@.len() + group.files@.len(),
        forall|k: int| 0 <= k < old(args)@.len() ==> final(args)@[k] == old(args)@[k],
        forall|k: int|
            0 <= k < group.files@.len() ==> (#[trigger] final(args)@[old(args)@.len() + k])@
                == group.files@[k].path@,
{
    let mut i: usize = 0;
    while i < group.files.len()
        invariant
            i <= group.files.len(),
            args@.len() == old(args)@.len() + i,
            forall|k: int| 0 <= k < old(args)@.len() ==> args@[k] == old(args)@[k],
            forall|k: int|
                0 <= k < i ==> (#[trigger] args@[old(args)@.len() + k])@ == group.files@[k].path@,
        decreases group.files.len() - i,
    {
        args.push(group.files[i].path.clone());
        i += 1;
    }
}

/// The words that tell which commit of a run over all groups failed.
pub open spec fn failure_context(index: nat, total: nat) -> Seq<char> {
    "Failed to commit group "@ + decimal(index + 1) + " of "@ + decimal(total)
}

/// Tells which commit of a run over `total` groups failed: the one with
/// index `index`, counted from one.
pub fn commit_failure_context(index: usize, total: usize) -> (r: String)
    requires
        index < total,
    ensures
        r@ == failure_context(index as nat, total as nat),
{
    let mut out: Vec<char> = chars_of("Failed to commit group ");
    let position: Vec<char> = decimal_of(index + 1);
    append(&mut out, &position);
    append_str(&mut out, " of ");
    let count: Vec<char> = decimal_of(total);
    append(&mut out, &count);
    string_of(&out)
}

} // verus!
