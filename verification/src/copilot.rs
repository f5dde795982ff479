//! Checks and parsers around assisted grouping: the duplicate-file check on
//! a list of groups, and the reading of an assistant's answers.

use crate::ai::{
    append_diff_section, append_labelled, append_path_lines, diff_section, labelled, path_lines,
    MAX_DIFF_SIZE,
};
use crate::inference::{
    body_lines_for, commit_type_of, description_for, infer_body_lines, infer_commit_type,
    infer_description, infer_scope, paths_of, scope_of,
};
use crate::text::{
    append, append_str, byte_len, chars_of, contains_seq, cut_to, decimal, decimal_of, excerpt,
    find, first_match, has, is, join, lemma_join_empty, lemma_join_push, lemma_trim_is_trimmed,
    lines_of, lowercase, matches_at, replace_all, replaced, slice_of, split_lines, starts_with,
    string_of, string_views, strip_leading, strip_trailing, trim, trimmed, views, without_leading,
    without_trailing,
};
use crate::types::{
    has_all, opt_view, ChangeGroup, ChangedFile, CommitType, INDEX_DELETED, INDEX_MODIFIED,
    INDEX_NEW, INDEX_RENAMED,
};
use vstd::prelude::*;

verus! {

/// One file of the walk over a list of groups: its path and the index of the
/// group that holds it.
pub struct Visit {
    /// Path of the file
    pub path: Seq<char>,
    /// Index of the group it was met in
    pub group: int,
}

/// The files of `groups` in the order of the walk: group by group, and in
/// each group file by file.
pub open spec fn walk(groups: Seq<ChangeGroup>) -> Seq<Visit>
    decreases groups.len(),
{
    if groups.len() == 0 {
        Seq::empty()
    } else {
        walk(groups.drop_last()) + visits_of(groups.last(), groups.len() - 1)
    }
}

/// The files of one group, as visits of the group with index `index`.
pub open spec fn visits_of(group: ChangeGroup, index: int) -> Seq<Visit> {
    Seq::new(group.files@.len(), |j: int| Visit { path: group.files@[j].path@, group: index })
}

/// The path met at position `k` of the walk was met before.
pub open spec fn seen_before(w: Seq<Visit>, k: int) -> bool {
    exists|j: int| 0 <= j < k && (#[trigger] w[j]).path == w[k].path
}

/// The visits among the first `n` of the walk whose path was met before, in
/// the order of the walk.
pub open spec fn repeats(w: Seq<Visit>, n: int) -> Seq<Visit>
    decreases n,
{
    if n <= 0 {
        Seq::empty()
    } else if seen_before(w, n - 1) {
        repeats(w, n - 1).push(w[n - 1])
    } else {
        repeats(w, n - 1)
    }
}

/// No path stands at two positions of the walk.
pub open spec fn all_distinct(w: Seq<Visit>) -> bool {
    forall|i: int, j: int| 0 <= i < j < w.len() ==> w[i].path != w[j].path
}

/// A file path that was met a second time, and the group it was met in.
#[derive(Debug, Clone)]
pub struct DuplicateFile {
    /// Path of the file
    pub path: String,
    /// Index of the group in which the repeat was found
    pub group_index: usize,
}

impl DuplicateFile {
    /// This record as a visit of the walk.
    pub open spec fn visit(&self) -> Visit {
        Visit { path: self.path@, group: self.group_index as int }
    }
}

/// The failure of the duplicate-file check: every repeat, in the order in
/// which the walk found them.
#[derive(Debug, Clone)]
pub struct DuplicateFiles {
    /// The repeats; never empty
    pub duplicates: Vec<DuplicateFile>,
}

/// The line that reports one repeat.
pub open spec fn duplicate_line(v: Visit) -> Seq<char> {
    "File '"@ + v.path + "' appears in multiple groups (at least in group "@ + decimal(
        v.group as nat,
    ) + ")"@
}

/// The lines that report these repeats, each after a bullet of its own.
pub open spec fn duplicate_lines(d: Seq<Visit>) -> Seq<char>
    decreases d.len(),
{
    if d.len() == 0 {
        Seq::empty()
    } else {
        duplicate_lines(d.drop_last()) + "\n  - "@ + duplicate_line(d.last())
    }
}

impl DuplicateFiles {
    /// The repeats as visits of the walk.
    pub open spec fn visits(&self) -> Seq<Visit> {
        Seq::new(self.duplicates@.len(), |i: int| self.duplicates@[i].visit())
    }

    /// The text of this failure.
    pub open spec fn message_spec(&self) -> Seq<char> {
        "Duplicate files detected in commit groups:"@ + duplicate_lines(self.visits())
    }

    /// Renders the failure: a heading, then one line for each repeat with
    /// the path and the index of the group.
    pub fn message(&self) -> (r: String)
        ensures
            r@ == self.message_spec(),
    {
        let mut out: Vec<char> = chars_of("Duplicate files detected in commit groups:");
        let ghost head = out@;
        let ghost all = self.visits();
        let n: usize = self.duplicates.len();
        let mut i: usize = 0;
        assert(all.subrange(0, 0) == Seq::<Visit>::empty());
        assert(out@ == head + Seq::<char>::empty());
        while i < n
            invariant
                i <= n,
                n == self.duplicates.len(),
                all == self.visits(),
                out@ == head + duplicate_lines(all.subrange(0, i as int)),
            decreases n - i,
        {
            let ghost before = duplicate_lines(all.subrange(0, i as int));
            let d = &self.duplicates[i];
            append_str(&mut out, "\n  - ");
            append_str(&mut out, "File '");
            append_str(&mut out, d.path.as_str());
            append_str(&mut out, "' appears in multiple groups (at least in group ");
            let digits = decimal_of(d.group_index);
            append(&mut out, &digits);
            append_str(&mut out, ")");
            assert(all.subrange(0, i + 1).drop_last() == all.subrange(0, i as int));
            assert(all.subrange(0, i + 1).last() == d.visit());
            assert(out@ == head + (before + "\n  - "@ + duplicate_line(d.visit())));
            i += 1;
        }
        assert(all.subrange(0, n as int) == all);
        string_of(&out)
    }
}

/// The walk over one more group is the walk so far followed by that group's
/// files.
proof fn lemma_walk_step(groups: Seq<ChangeGroup>, g: int)
    requires
        0 <= g < groups.len(),
    ensures
        walk(groups.subrange(0, g + 1)) == walk(groups.subrange(0, g)) + visits_of(groups[g], g),
{
    assert(groups.subrange(0, g + 1).drop_last() == groups.subrange(0, g));
}

/// The repeats among the first `n` visits depend on those visits only.
proof fn lemma_repeats_prefix(w: Seq<Visit>, v: Seq<Visit>, n: int)
    requires
        0 <= n <= w.len(),
        n <= v.len(),
        w.subrange(0, n) == v.subrange(0, n),
    ensures
        repeats(w, n) == repeats(v, n),
    decreases n,
{
    if n > 0 {
        assert(w.subrange(0, n - 1) == w.subrange(0, n).subrange(0, n - 1));
        assert(v.subrange(0, n - 1) == v.subrange(0, n).subrange(0, n - 1));
        lemma_repeats_prefix(w, v, n - 1);
        assert(w[n - 1] == w.subrange(0, n)[n - 1]);
        assert(v[n - 1] == v.subrange(0, n)[n - 1]);
        assert forall|j: int| 0 <= j < n - 1 implies w[j] == v[j] by {
            assert(w[j] == w.subrange(0, n)[j]);
            assert(v[j] == v.subrange(0, n)[j]);
        }
        assert(seen_before(w, n - 1) == seen_before(v, n - 1));
    }
}

/// There are no repeats exactly when all paths of the walk are distinct.
pub proof fn lemma_no_repeats_iff_distinct(w: Seq<Visit>, n: int)
    requires
        0 <= n <= w.len(),
    ensures
        repeats(w, n).len() == 0 <==> all_distinct(w.subrange(0, n)),
    decreases n,
{
    let p = w.subrange(0, n);
    if n > 0 {
        lemma_no_repeats_iff_distinct(w, n - 1);
        let q = w.subrange(0, n - 1);
        if repeats(w, n).len() == 0 {
            assert(!seen_before(w, n - 1));
            assert(all_distinct(q));
            assert forall|i: int, j: int| 0 <= i < j < p.len() implies p[i].path != p[j].path by {
                if j < n - 1 {
                    assert(q[i] == p[i] && q[j] == p[j]);
                } else {
                    assert(p[i] == w[i] && p[j] == w[n - 1]);
                }
            }
        }
        if all_distinct(p) {
            assert forall|i: int, j: int| 0 <= i < j < q.len() implies q[i].path != q[j].path by {
                assert(q[i] == p[i] && q[j] == p[j]);
            }
            if seen_before(w, n - 1) {
                let j = choose|j: int| 0 <= j < n - 1 && (#[trigger] w[j]).path == w[n - 1].path;
                assert(p[j] == w[j] && p[n - 1] == w[n - 1]);
            }
        }
    }
}

/// Validates that no file appears in two groups, nor twice in one. Walks the
/// groups in order and each group's files in order; a path that was met
/// before is a repeat. Succeeds when there is none; else the failure lists
/// every repeat with the index of the group in which it was found.
pub fn validate_no_duplicate_files(groups: &[ChangeGroup]) -> (r: Result<(), DuplicateFiles>)
    ensures
        r is Ok <==> all_distinct(walk(groups@)),
        r is Ok <==> repeats(walk(groups@), walk(groups@).len() as int).len() == 0,
        r matches Err(e) ==> e.visits() == repeats(walk(groups@), walk(groups@).len() as int),
{
    let mut seen: Vec<String> = Vec::new();
    let mut duplicates: Vec<DuplicateFile> = Vec::new();
    let ghost whole = walk(groups@);
    let mut g: usize = 0;
    assert(groups@.subrange(0, 0) == Seq::<ChangeGroup>::empty());
    while g < groups.len()
        invariant
            g <= groups.len(),
            seen@.len() == walk(groups@.subrange(0, g as int)).len(),
            forall|k: int| 0 <= k < seen@.len() ==> (#[trigger] seen@[k])@ == walk(
                groups@.subrange(0, g as int),
            )[k].path,
            dup_visits(duplicates@) == repeats(
                walk(groups@.subrange(0, g as int)),
                seen@.len() as int,
            ),
        decreases groups.len() - g,
    {
        let group = &groups[g];
        let ghost base = walk(groups@.subrange(0, g as int));
        let ghost next = walk(groups@.subrange(0, g + 1));
        proof {
            lemma_walk_step(groups@, g as int);
            assert(next.subrange(0, base.len() as int) == base);
            assert(base.subrange(0, base.len() as int) == base);
            lemma_repeats_prefix(next, base, base.len() as int);
        }
        let mut f: usize = 0;
        while f < group.files.len()
            invariant
                f <= group.files.len(),
                g < groups.len(),
                group == groups@[g as int],
                base == walk(groups@.subrange(0, g as int)),
                next == base + visits_of(*group, g as int),
                seen@.len() == base.len() + f,
                forall|k: int| 0 <= k < seen@.len() ==> (#[trigger] seen@[k])@ == next[k].path,
                dup_visits(duplicates@) == repeats(next, seen@.len() as int),
            decreases group.files.len() - f,
        {
            let file = &group.files[f];
            let ghost pos = seen@.len() as int;
            assert(next[pos] == visits_of(*group, g as int)[f as int]);
            assert(next[pos].path == file.path@);
            let found: bool = holds(&seen, &file.path);
            proof {
                if found {
                    let j = choose|j: int| 0 <= j < seen@.len() && (#[trigger] seen@[j])@ == file.path@;
                    assert(next[j].path == next[pos].path);
                } else {
                    if seen_before(next, pos) {
                        let j = choose|j: int|
                            0 <= j < pos && (#[trigger] next[j]).path == next[pos].path;
                        assert(seen@[j]@ == file.path@);
                    }
                }
                assert(found == seen_before(next, pos));
            }
            let ghost before = dup_visits(duplicates@);
            if found {
                duplicates.push(DuplicateFile { path: file.path.clone(), group_index: g });
                assert(dup_visits(duplicates@) == before.push(next[pos]));
            }
            seen.push(file.path.clone());
            f += 1;
        }
        g += 1;
    }
    proof {
        assert(groups@.subrange(0, groups.len() as int) == groups@);
        lemma_no_repeats_iff_distinct(whole, whole.len() as int);
        assert(whole.subrange(0, whole.len() as int) == whole);
    }
    if duplicates.len() == 0 {
        Ok(())
    } else {
        let e = DuplicateFiles { duplicates };
        assert(e.visits() == dup_visits(e.duplicates@));
        Err(e)
    }
}

/// The commit type that a tag names; a tag that names none stands for a
/// feature.
pub open spec fn commit_type_named(tag: Seq<char>) -> CommitType {
    if tag == "fix"@ {
        CommitType::Fix
    } else if tag == "docs"@ {
        CommitType::Docs
    } else if tag == "style"@ {
        CommitType::Style
    } else if tag == "refactor"@ {
        CommitType::Refactor
    } else if tag == "perf"@ {
        CommitType::Perf
    } else if tag == "test"@ {
        CommitType::Test
    } else if tag == "chore"@ {
        CommitType::Chore
    } else if tag == "ci"@ {
        CommitType::Ci
    } else if tag == "build"@ {
        CommitType::Build
    } else {
        CommitType::Feat
    }
}

/// Parses a commit type string into a `CommitType`; an unknown string gives
/// `Feat`.
pub fn parse_commit_type(type_str: &str) -> (r: CommitType)
    ensures
        r == commit_type_named(type_str@),
{
    let tag: Vec<char> = chars_of(type_str);
    if is(&tag, "fix") {
        CommitType::Fix
    } else if is(&tag, "docs") {
        CommitType::Docs
    } else if is(&tag, "style") {
        CommitType::Style
    } else if is(&tag, "refactor") {
        CommitType::Refactor
    } else if is(&tag, "perf") {
        CommitType::Perf
    } else if is(&tag, "test") {
        CommitType::Test
    } else if is(&tag, "chore") {
        CommitType::Chore
    } else if is(&tag, "ci") {
        CommitType::Ci
    } else if is(&tag, "build") {
        CommitType::Build
    } else {
        CommitType::Feat
    }
}

/// Parsing the tag of a commit type gives that type back.
pub proof fn lemma_tag_names_its_type(t: CommitType)
    ensures
        commit_type_named(t.tag()) == t,
{
    reveal_strlit("feat");
    reveal_strlit("fix");
    reveal_strlit("docs");
    reveal_strlit("style");
    reveal_strlit("refactor");
    reveal_strlit("perf");
    reveal_strlit("test");
    reveal_strlit("chore");
    reveal_strlit("ci");
    reveal_strlit("build");
    let tag = t.tag();
    if tag.len() == 4 {
        assert("feat"@[0] == 'f' && "docs"@[0] == 'd' && "perf"@[0] == 'p' && "test"@[0] == 't');
    } else if tag.len() == 5 {
        assert("style"@[0] == 's' && "chore"@[0] == 'c' && "build"@[0] == 'b');
    }
}

/// The line that opens the answer in an assistant's output.
pub const START_MARKER: &'static str = "**START COMMIT MESSAGE**";

/// The line that closes the answer in an assistant's output.
pub const END_MARKER: &'static str = "**END COMMIT MESSAGE**";

/// The failures of reading an assistant's output.
#[derive(Debug, Clone)]
pub enum CopilotError {
    /// No text stands between the two markers
    MissingResponse,
    /// The groups that were read name a file twice
    Duplicates(DuplicateFiles),
}

impl CopilotError {
    /// The text of this failure.
    pub open spec fn message_spec(&self) -> Seq<char> {
        match self {
            CopilotError::MissingResponse =>
                "Could not find text between markers '**START COMMIT MESSAGE**' and '**END COMMIT MESSAGE**' in Copilot CLI output"@,
            CopilotError::Duplicates(d) => d.message_spec(),
        }
    }

    /// Renders the failure.
    pub fn message(&self) -> (r: String)
        ensures
            r@ == self.message_spec(),
    {
        match self {
            CopilotError::MissingResponse => {
                let out: Vec<char> = chars_of(
                    "Could not find text between markers '**START COMMIT MESSAGE**' and '**END COMMIT MESSAGE**' in Copilot CLI output",
                );
                string_of(&out)
            },
            CopilotError::Duplicates(d) => d.message(),
        }
    }
}

/// The lines of an output that belong to the answer. A line that, trimmed,
/// is the start marker opens the block; one that is the end marker ends the
/// reading, wherever it stands; in the block, every line that is not blank
/// is kept as it is. `in_block` tells whether the block is open already.
pub open spec fn kept_lines(lines: Seq<Seq<char>>, in_block: bool) -> Seq<Seq<char>>
    decreases lines.len(),
{
    if lines.len() == 0 {
        Seq::empty()
    } else {
        let t = trim(lines[0]);
        if t == START_MARKER@ {
            kept_lines(lines.drop_first(), true)
        } else if t == END_MARKER@ {
            Seq::empty()
        } else if in_block && t.len() > 0 {
            seq![lines[0]] + kept_lines(lines.drop_first(), in_block)
        } else {
            kept_lines(lines.drop_first(), in_block)
        }
    }
}

/// The answer in an assistant's output: its kept lines, joined by line
/// feeds.
pub open spec fn response_between_markers(output: Seq<char>) -> Seq<char> {
    join(kept_lines(split_lines(output), false), "\n"@)
}

/// Extracts the text between the start marker and the end marker from an
/// assistant's output, without the markers and without blank lines. Fails
/// exactly when that text is empty.
pub fn extract_response_between_markers(output: &str) -> (r: Result<String, CopilotError>)
    ensures
        r matches Ok(s) ==> s@ == response_between_markers(output@) && s@.len() > 0,
        r matches Err(e) ==> e is MissingResponse,
        r is Err <==> response_between_markers(output@).len() == 0,
{
    let chars: Vec<char> = chars_of(output);
    let lines: Vec<Vec<char>> = lines_of(&chars);
    let ghost all = split_lines(output@);
    let mut in_block: bool = false;
    let mut out: Vec<char> = Vec::new();
    let ghost mut kept: Seq<Seq<char>> = Seq::empty();
    let mut k: usize = 0;
    let mut closed: bool = false;
    proof {
        reveal_strlit("\n");
        assert("\n"@ =~= seq!['\n']);
        assert(all.subrange(0, all.len() as int) == all);
    }
    while k < lines.len() && !closed
        invariant
            k <= lines.len(),
            views(lines@) == all,
            !closed ==> kept_lines(all, false) == kept + kept_lines(
                all.subrange(k as int, all.len() as int),
                in_block,
            ),
            closed ==> kept_lines(all, false) == kept,
            out@ == join(kept, "\n"@),
            forall|i: int| 0 <= i < kept.len() ==> (#[trigger] kept[i]).len() > 0,
            "\n"@ == seq!['\n'],
        decreases lines.len() - k,
    {
        let line = &lines[k];
        let t: Vec<char> = trimmed(line);
        let ghost rest = all.subrange(k as int, all.len() as int);
        assert(rest[0] == line@) by {
            assert(lines@[k as int]@ == all[k as int]);
        }
        assert(rest.drop_first() == all.subrange(k + 1, all.len() as int));
        if is(&t, START_MARKER) {
            in_block = true;
        } else if is(&t, END_MARKER) {
            proof {
                assert(kept + Seq::<Seq<char>>::empty() == kept);
            }
            closed = true;
        } else if in_block && t.len() > 0 {
            proof {
                lemma_trim_is_trimmed(line@);
                lemma_join_push(kept, line@, "\n"@);
                assert(kept + (seq![line@] + kept_lines(rest.drop_first(), in_block)) == kept.push(
                    line@,
                ) + kept_lines(rest.drop_first(), in_block));
            }
            if out.len() > 0 {
                out.push('\n');
                assert(out@ == join(kept, "\n"@) + "\n"@);
            } else {
                proof {
                    lemma_join_empty(kept, "\n"@);
                }
            }
            append(&mut out, line);
            proof {
                kept = kept.push(line@);
            }
        }
        k += 1;
    }
    proof {
        if !closed {
            assert(kept_lines(all.subrange(k as int, all.len() as int), in_block)
                == Seq::<Seq<char>>::empty());
            assert(kept + Seq::<Seq<char>>::empty() == kept);
        }
        lemma_join_empty(kept, "\n"@);
    }
    if out.len() == 0 {
        Err(CopilotError::MissingResponse)
    } else {
        Ok(string_of(&out))
    }
}

/// The description in the first part of an answer: trimmed, then without
/// leading and trailing double quotes, then without leading and trailing
/// backticks.
pub open spec fn unquoted(part: Seq<char>) -> Seq<char> {
    strip_trailing(
        strip_leading(strip_trailing(strip_leading(trim(part), "\""@), "\""@), "`"@),
        "`"@,
    )
}

/// An answer without a code fence around it: trimmed, without leading and
/// trailing runs of three backticks, and trimmed again.
pub open spec fn unfenced(response: Seq<char>) -> Seq<char> {
    trim(strip_trailing(strip_leading(trim(response), "```"@), "```"@))
}

/// The body in what follows the first empty line of an answer: trimmed,
/// and with every double dash replaced by a single one; none if nothing is
/// left after trimming.
pub open spec fn body_after(rest: Seq<char>) -> Option<Seq<char>> {
    let b = trim(rest);
    if b.len() == 0 {
        None
    } else {
        Some(replace_all(b, "--"@, "-"@))
    }
}

/// The description and the body of an answer: the answer is taken out of
/// its code fence and split at its first empty line.
pub open spec fn commit_message_parts(response: Seq<char>) -> (Seq<char>, Option<Seq<char>>) {
    let cleaned = unfenced(response);
    match first_match(cleaned, "\n\n"@) {
        Some(i) => (
            unquoted(cleaned.subrange(0, i)),
            body_after(cleaned.subrange(i + 2, cleaned.len() as int)),
        ),
        None => (unquoted(cleaned), None),
    }
}

/// Parses an assistant's answer into the description and the optional body
/// of a commit message. Never fails.
pub fn parse_commit_message(response: &str) -> (r: Result<(String, Option<String>), CopilotError>)
    ensures
        r matches Ok(parts) && parts.0@ == commit_message_parts(response@).0 && opt_view(parts.1)
            == commit_message_parts(response@).1,
{
    let chars: Vec<char> = chars_of(response);
    let t: Vec<char> = trimmed(&chars);
    proof {
        reveal_strlit("```");
        reveal_strlit("\"");
        reveal_strlit("`");
        reveal_strlit("\n\n");
        reveal_strlit("--");
    }
    let a: Vec<char> = without_leading(&t, "```");
    let b: Vec<char> = without_trailing(&a, "```");
    let cleaned: Vec<char> = trimmed(&b);
    let sep: Vec<char> = chars_of("\n\n");
    match find(&cleaned, &sep) {
        Some(i) => {
            assert(sep@.len() == 2);
            assert(matches_at(cleaned@, sep@, i as int));
            let head: Vec<char> = slice_of(&cleaned, 0, i);
            let description: String = description_in(&head);
            let rest: Vec<char> = slice_of(&cleaned, i + 2, cleaned.len());
            let body_text: Vec<char> = trimmed(&rest);
            let body: Option<String> = if body_text.len() == 0 {
                None
            } else {
                let replaced_text: Vec<char> = replaced(&body_text, "--", "-");
                Some(string_of(&replaced_text))
            };
            Ok((description, body))
        },
        None => {
            let description: String = description_in(&cleaned);
            Ok((description, None))
        },
    }
}

/// The description in the first part of an answer.
pub fn description_in(part: &Vec<char>) -> (r: String)
    ensures
        r@ == unquoted(part@),
{
    proof {
        reveal_strlit("\"");
        reveal_strlit("`");
    }
    let t: Vec<char> = trimmed(part);
    let a: Vec<char> = without_leading(&t, "\"");
    let b: Vec<char> = without_trailing(&a, "\"");
    let c: Vec<char> = without_leading(&b, "`");
    let d: Vec<char> = without_trailing(&c, "`");
    string_of(&d)
}

/// The line with which the assistant reports that nobody is logged in.
pub const AUTH_ERROR: &'static str = "Error: No authentication information found.";

/// Tells from the output of a trial run whether the assistant is ready:
/// the run succeeded and its output does not report a missing login.
pub fn check_copilot_auth_error(output: &str, status_success: bool) -> (ready: bool)
    ensures
        ready == (status_success && !contains_seq(output@, AUTH_ERROR@)),
{
    let chars: Vec<char> = chars_of(output);
    if has(&chars, AUTH_ERROR) {
        return false;
    }
    status_success
}

/// How the grouping prompt begins.
pub const GROUPING_INTRO: &'static str =
    "Analyze these changed files and group them into logical commits.\n\nREQUIREMENTS:\n- Group files that belong to the same logical change\n- Also analyze the dependencies between the changed files and ensure that these are completely fulfilled per commit group.\n- Be sure to include all related files in the same group\n- Be sure that a file is only in one group\n- Assign appropriate conventional commit type (feat, fix, docs, style, refactor, perf, test, chore, ci, build)\n- Determine scope from file paths (e.g., 'api', 'ui', 'auth')\n- Generate concise, imperative descriptions\n- Keep descriptions under 72 characters\n\n";

/// How the grouping prompt ends: the form of the answer, between the two
/// markers.
pub const GROUPING_FORMAT: &'static str =
    "\n\nProvide the grouping in JSON format between these markers:\n**START COMMIT MESSAGE**\n[\n  {\n    \"type\": \"feat\",\n    \"scope\": \"api\",\n    \"description\": \"add user endpoint\",\n    \"files\": [\"src/api/users.rs\"],\n    \"body_lines\": [\"implement GET /users\", \"add user model\"]\n    # NOTE: body_lines should NOT start with '- ', it will be added automatically\n  }\n]\n**END COMMIT MESSAGE**\n";

/// How the message prompt begins.
pub const MESSAGE_INTRO: &'static str =
    "Generate a conventional commit message for these changes.\n\n";

/// The rules of the message prompt.
pub const MESSAGE_RULES: &'static str =
    "REQUIREMENTS:\n- Use imperative mood: 'add feature' NOT 'added feature'\n- Keep description concise and factual\n- Do NOT include type/scope prefix (feat:, fix:, etc.)\n- Start with a lowercase verb\n- No period at the end of description\n- Keep subject line under 72 characters\n- If providing a body, provide plain text lines WITHOUT bullet point prefix\n- The tool will automatically add '- ' prefix to each body line\n- Mention breaking changes if applicable\n\n";

/// How the message prompt ends: the form of the answer, between the two
/// markers.
pub const MESSAGE_FORMAT: &'static str =
    "\n\nGenerate ONLY the commit message between these markers:\n**START COMMIT MESSAGE**\n<description>\n\n<optional body with bullet points>\n**END COMMIT MESSAGE**\n";

/// Number of diffs that the grouping prompt shows at most.
pub const MAX_DIFFS_SHOWN: usize = 5;

/// The word that tells what happened to a file with this status.
pub open spec fn status_word(status: u32) -> Seq<char> {
    if has_all(status, INDEX_NEW) {
        "new"@
    } else if has_all(status, INDEX_MODIFIED) {
        "modified"@
    } else if has_all(status, INDEX_DELETED) {
        "deleted"@
    } else if has_all(status, INDEX_RENAMED) {
        "renamed"@
    } else {
        "changed"@
    }
}

/// The first `n` files, each on a line of its own with its status.
pub open spec fn status_lines(files: Seq<ChangedFile>, n: int) -> Seq<char>
    decreases n,
{
    if n <= 0 {
        Seq::empty()
    } else {
        status_lines(files, n - 1) + "  "@ + status_word(files[n - 1].status) + " - "@ + files[n
            - 1].path@ + "\n"@
    }
}

/// What the grouping prompt shows of one diff: all of it if it takes at
/// most `MAX_DIFF_SIZE` bytes, else its longest prefix that does, with a
/// remark.
pub open spec fn diff_preview(diff: Seq<char>) -> Seq<char> {
    if byte_len(diff) > MAX_DIFF_SIZE {
        excerpt(diff, MAX_DIFF_SIZE as nat) + "... (truncated)"@
    } else {
        diff
    }
}

/// What the grouping prompt shows of the first `n` diffs: for each the path
/// as a heading, then the preview.
pub open spec fn diff_previews(diffs: Seq<(String, String)>, n: int) -> Seq<char>
    decreases n,
{
    if n <= 0 {
        Seq::empty()
    } else {
        diff_previews(diffs, n - 1) + "\n"@ + diffs[n - 1].0@ + ":\n"@ + diff_preview(
            diffs[n - 1].1@,
        )
    }
}

/// The part of the grouping prompt that shows diffs: nothing without diffs,
/// else a heading and the previews of the first `MAX_DIFFS_SHOWN`.
pub open spec fn diffs_part(diffs: Seq<(String, String)>) -> Seq<char> {
    if diffs.len() == 0 {
        Seq::empty()
    } else {
        "\nDIFF PREVIEW:\n"@ + diff_previews(
            diffs,
            if diffs.len() > MAX_DIFFS_SHOWN {
                MAX_DIFFS_SHOWN as int
            } else {
                diffs.len() as int
            },
        )
    }
}

/// The prompt that asks for a grouping of the files.
pub open spec fn grouping_prompt_text(
    files: Seq<ChangedFile>,
    ticket: Option<Seq<char>>,
    diffs: Seq<(String, String)>,
) -> Seq<char> {
    GROUPING_INTRO@ + (match ticket {
        Some(t) => "Ticket/Issue: "@ + t + "\n\n"@,
        None => Seq::empty(),
    }) + "CHANGED FILES:\n"@ + status_lines(files, files.len() as int) + diffs_part(diffs)
        + GROUPING_FORMAT@
}

/// Builds the prompt for assisted grouping: the rules, the ticket if any,
/// the files with their status, previews of up to five diffs (path and
/// diff, in the order given), and the form of the answer.
pub fn build_grouping_prompt(
    files: &[ChangedFile],
    ticket: Option<&str>,
    diffs: &Vec<(String, String)>,
) -> (r: String)
    ensures
        r@ == grouping_prompt_text(files@, match ticket {
            Some(t) => Some(t@),
            None => None,
        }, diffs@),
{
    let mut out: Vec<char> = chars_of(GROUPING_INTRO);
    match ticket {
        Some(t) => {
            append_str(&mut out, "Ticket/Issue: ");
            append_str(&mut out, t);
            append_str(&mut out, "\n\n");
            assert(out@ == GROUPING_INTRO@ + ("Ticket/Issue: "@ + t@ + "\n\n"@));
        },
        None => {
            assert(out@ == GROUPING_INTRO@ + Seq::<char>::empty());
        },
    }
    append_str(&mut out, "CHANGED FILES:\n");
    let ghost head = out@;
    let mut i: usize = 0;
    assert(out@ == head + Seq::<char>::empty());
    while i < files.len()
        invariant
            i <= files.len(),
            out@ == head + status_lines(files@, i as int),
        decreases files.len() - i,
    {
        let ghost before = status_lines(files@, i as int);
        let f = &files[i];
        let word: &str = if f.is_new() {
            "new"
        } else if f.is_modified() {
            "modified"
        } else if f.is_deleted() {
            "deleted"
        } else if f.is_renamed() {
            "renamed"
        } else {
            "changed"
        };
        append_str(&mut out, "  ");
        append_str(&mut out, word);
        append_str(&mut out, " - ");
        append_str(&mut out, f.path.as_str());
        append_str(&mut out, "\n");
        assert(out@ == head + (before + "  "@ + status_word(f.status) + " - "@ + f.path@ + "\n"@));
        i += 1;
    }
    let ghost listed = out@;
    if diffs.len() > 0 {
        let shown: usize = if diffs.len() > MAX_DIFFS_SHOWN {
            MAX_DIFFS_SHOWN
        } else {
            diffs.len()
        };
        let mut part: Vec<char> = chars_of("\nDIFF PREVIEW:\n");
        let ghost heading = part@;
        let mut k: usize = 0;
        assert(part@ == heading + Seq::<char>::empty());
        while k < shown
            invariant
                k <= shown <= diffs.len(),
                part@ == heading + diff_previews(diffs@, k as int),
            decreases shown - k,
        {
            let ghost before = diff_previews(diffs@, k as int);
            append_str(&mut part, "\n");
            append_str(&mut part, diffs[k].0.as_str());
            append_str(&mut part, ":\n");
            let cut: (Vec<char>, bool) = cut_to(diffs[k].1.as_str(), MAX_DIFF_SIZE);
            append(&mut part, &cut.0);
            if cut.1 {
                append_str(&mut part, "... (truncated)");
                assert(part@ == heading + (before + "\n"@ + diffs@[k as int].0@ + ":\n"@ + (cut.0@
                    + "... (truncated)"@)));
            } else {
                assert(part@ == heading + (before + "\n"@ + diffs@[k as int].0@ + ":\n"@ + cut.0@));
            }
            k += 1;
        }
        append(&mut out, &part);
    } else {
        assert(out@ == listed + Seq::<char>::empty());
    }
    append_str(&mut out, GROUPING_FORMAT);
    string_of(&out)
}

/// The prompt that asks for the commit message of a group.
pub open spec fn message_prompt_text(
    group: ChangeGroup,
    files: Seq<ChangedFile>,
    diff: Option<Seq<char>>,
) -> Seq<char> {
    MESSAGE_INTRO@ + (match opt_view(group.ticket) {
        Some(t) => "Ticket number: "@ + t + "\n\n"@,
        None => Seq::empty(),
    }) + MESSAGE_RULES@ + labelled("Type: "@, Some(group.commit_type.tag())) + labelled(
        "Scope: "@,
        opt_view(group.scope),
    ) + "\nCHANGED FILES:\n"@ + path_lines(files, "  - "@, files.len() as int) + diff_section(
        "\nDIFF:\n"@,
        diff,
    ) + MESSAGE_FORMAT@
}

/// Builds the prompt for commit message generation: the ticket if any, the
/// rules, type and scope, the files, the diff cut to 1000 bytes, and the
/// form of the answer.
pub fn build_commit_message_prompt(group: &ChangeGroup, files: &[ChangedFile], diff: Option<&str>) -> (r:
    String)
    ensures
        r@ == message_prompt_text(*group, files@, match diff {
            Some(d) => Some(d@),
            None => None,
        }),
{
    let mut out: Vec<char> = chars_of(MESSAGE_INTRO);
    match &group.ticket {
        Some(t) => {
            append_str(&mut out, "Ticket number: ");
            append_str(&mut out, t.as_str());
            append_str(&mut out, "\n\n");
            assert(out@ == MESSAGE_INTRO@ + ("Ticket number: "@ + t@ + "\n\n"@));
        },
        None => {
            assert(out@ == MESSAGE_INTRO@ + Seq::<char>::empty());
        },
    }
    append_str(&mut out, MESSAGE_RULES);
    let tag: Vec<char> = chars_of(group.commit_type.as_str());
    let kind: Option<String> = Some(string_of(&tag));
    append_labelled(&mut out, "Type: ", &kind);
    append_labelled(&mut out, "Scope: ", &group.scope);
    append_str(&mut out, "\nCHANGED FILES:\n");
    append_path_lines(&mut out, files, "  - ");
    append_diff_section(&mut out, "\nDIFF:\n", diff);
    append_str(&mut out, MESSAGE_FORMAT);
    string_of(&out)
}

/// One group as an assistant's answer describes it.
#[derive(Debug, Clone)]
pub struct GroupSpec {
    /// The tag of the commit type, if the answer gives one
    pub type_tag: Option<String>,
    /// The scope, if the answer gives one
    pub scope: Option<String>,
    /// The description, if the answer gives one
    pub description: Option<String>,
    /// The paths of the files of the group
    pub files: Vec<String>,
    /// The body lines
    pub body_lines: Vec<String>,
}

/// One group as an assistant's answer describes it, as plain values.
pub struct GroupSpecView {
    /// The tag of the commit type, if the answer gives one
    pub type_tag: Option<Seq<char>>,
    /// The scope, if the answer gives one
    pub scope: Option<Seq<char>>,
    /// The description, if the answer gives one
    pub description: Option<Seq<char>>,
    /// The paths of the files of the group
    pub files: Seq<Seq<char>>,
    /// The body lines
    pub body_lines: Seq<Seq<char>>,
}

impl View for GroupSpec {
    type V = GroupSpecView;

    open spec fn view(&self) -> GroupSpecView {
        GroupSpecView {
            type_tag: opt_view(self.type_tag),
            scope: opt_view(self.scope),
            description: opt_view(self.description),
            files: string_views(self.files@),
            body_lines: string_views(self.body_lines@),
        }
    }
}

/// The views of these descriptions, in order.
pub open spec fn spec_views(specs: Seq<GroupSpec>) -> Seq<GroupSpecView> {
    Seq::new(specs.len(), |i: int| specs[i]@)
}

/// A body line without the dash and the space that it may begin with.
pub open spec fn without_bullet(line: Seq<char>) -> Seq<char> {
    if starts_with(line, "- "@) {
        line.subrange(2, line.len() as int)
    } else {
        line
    }
}

/// The files among the first `n` of `files` whose path is one of `names`,
/// in order.
pub open spec fn files_named(files: Seq<ChangedFile>, names: Seq<Seq<char>>, n: int) -> Seq<
    ChangedFile,
>
    decreases n,
{
    if n <= 0 {
        Seq::empty()
    } else if names.contains(files[n - 1].path@) {
        files_named(files, names, n - 1).push(files[n - 1])
    } else {
        files_named(files, names, n - 1)
    }
}

/// `g` is the group that `spec` describes with the files `chosen`: the
/// commit type that the tag names, a feature without a tag; the scope; the
/// description, `update files` without one; the body lines without their
/// bullets; the ticket; not committed.
pub open spec fn is_group_from(
    spec: GroupSpecView,
    chosen: Seq<ChangedFile>,
    ticket: Option<Seq<char>>,
    g: ChangeGroup,
) -> bool {
    &&& g.commit_type == commit_type_named(
        match spec.type_tag {
            Some(t) => t,
            None => "feat"@,
        },
    )
    &&& opt_view(g.scope) == spec.scope
    &&& g.files@ == chosen
    &&& opt_view(g.ticket) == ticket
    &&& g.description@ == (match spec.description {
        Some(d) => d,
        None => "update files"@,
    })
    &&& g.body_lines@.len() == spec.body_lines.len()
    &&& forall|i: int|
        0 <= i < spec.body_lines.len() ==> (#[trigger] g.body_lines@[i])@ == without_bullet(
            spec.body_lines[i],
        )
    &&& !g.committed
}

/// `groups` are the groups that `specs` describe: one for each description
/// that names at least one of `files`, in their order, with the files it
/// names in the order of `files`.
pub open spec fn assembled(
    specs: Seq<GroupSpecView>,
    files: Seq<ChangedFile>,
    ticket: Option<Seq<char>>,
    groups: Seq<ChangeGroup>,
) -> bool
    decreases specs.len(),
{
    if specs.len() == 0 {
        groups.len() == 0
    } else {
        let chosen = files_named(files, specs.last().files, files.len() as int);
        if chosen.len() == 0 {
            assembled(specs.drop_last(), files, ticket, groups)
        } else {
            &&& groups.len() > 0
            &&& is_group_from(specs.last(), chosen, ticket, groups.last())
            &&& assembled(specs.drop_last(), files, ticket, groups.drop_last())
        }
    }
}

/// Tells whether `path` is one of `names`.
fn is_named(names: &Vec<String>, path: &String) -> (b: bool)
    ensures
        b == string_views(names@).contains(path@),
{
    let found: bool = holds(names, path);
    proof {
        let v = string_views(names@);
        if found {
            let j = choose|j: int| 0 <= j < names@.len() && (#[trigger] names@[j])@ == path@;
            assert(v[j] == path@);
        } else {
            if v.contains(path@) {
                let j = choose|j: int| 0 <= j < v.len() && v[j] == path@;
                assert(names@[j]@ == path@);
            }
        }
    }
    found
}

/// Builds the group that `spec` describes, if it names any of `files`.
fn group_from(spec: &GroupSpec, files: &Vec<ChangedFile>, ticket: &Option<String>) -> (r: Option<
    ChangeGroup,
>)
    ensures
        match r {
            Some(g) => is_group_from(
                spec@,
                files_named(files@, spec@.files, files@.len() as int),
                opt_view(*ticket),
                g,
            ) && g.files@.len() > 0,
            None => files_named(files@, spec@.files, files@.len() as int).len() == 0,
        },
{
    let mut chosen: Vec<ChangedFile> = Vec::new();
    let mut i: usize = 0;
    while i < files.len()
        invariant
            i <= files.len(),
            chosen@ == files_named(files@, string_views(spec.files@), i as int),
        decreases files.len() - i,
    {
        if is_named(&spec.files, &files[i].path) {
            chosen.push(files[i].duplicate());
        }
        i += 1;
    }
    if chosen.len() == 0 {
        return None;
    }
    let commit_type: CommitType = match &spec.type_tag {
        Some(t) => parse_commit_type(t.as_str()),
        None => parse_commit_type("feat"),
    };
    let scope: Option<String> = match &spec.scope {
        Some(s) => Some(s.clone()),
        None => None,
    };
    let description: String = match &spec.description {
        Some(d) => d.clone(),
        None => string_of(&chars_of("update files")),
    };
    let dash: Vec<char> = chars_of("- ");
    proof {
        reveal_strlit("- ");
        assert(dash@.len() == 2);
    }
    let mut body_lines: Vec<String> = Vec::new();
    let mut k: usize = 0;
    while k < spec.body_lines.len()
        invariant
            k <= spec.body_lines.len(),
            dash@ == "- "@,
            dash@.len() == 2,
            body_lines@.len() == k,
            forall|j: int|
                0 <= j < k ==> (#[trigger] body_lines@[j])@ == without_bullet(spec.body_lines@[j]@),
        decreases spec.body_lines.len() - k,
    {
        let line: Vec<char> = chars_of(spec.body_lines[k].as_str());
        if crate::text::has_prefix(&line, &dash) {
            let rest: Vec<char> = slice_of(&line, 2, line.len());
            body_lines.push(string_of(&rest));
        } else {
            body_lines.push(string_of(&line));
        }
        k += 1;
    }
    let held: Option<String> = match ticket {
        Some(t) => Some(t.clone()),
        None => None,
    };
    Some(ChangeGroup::new(commit_type, scope, chosen, held, description, body_lines))
}

/// Builds the groups that an assistant's answer describes from the files of
/// the working set. A description that names none of the files gives no
/// group.
pub fn groups_from_specs(specs: &Vec<GroupSpec>, files: &Vec<ChangedFile>, ticket: &Option<String>) -> (r:
    Vec<ChangeGroup>)
    ensures
        assembled(spec_views(specs@), files@, opt_view(*ticket), r@),
{
    let mut groups: Vec<ChangeGroup> = Vec::new();
    let mut i: usize = 0;
    let ghost all = spec_views(specs@);
    assert(all.subrange(0, 0) =~= Seq::<GroupSpecView>::empty());
    while i < specs.len()
        invariant
            i <= specs.len(),
            all == spec_views(specs@),
            assembled(all.subrange(0, i as int), files@, opt_view(*ticket), groups@),
        decreases specs.len() - i,
    {
        let ghost before = groups@;
        let ghost upto = all.subrange(0, i + 1);
        assert(upto.drop_last() == all.subrange(0, i as int));
        assert(upto.last() == specs@[i as int]@);
        match group_from(&specs[i], files, ticket) {
            Some(g) => {
                groups.push(g);
                assert(groups@.drop_last() == before);
            },
            None => {},
        }
        i += 1;
    }
    assert(all.subrange(0, specs.len() as int) == all);
    groups
}

/// A JSON value.
#[verifier::external_type_specification]
#[verifier::external_body]
pub struct ExJsonValue(serde_json::Value);

/// The elements of the JSON array that a text holds; none if the text is
/// no JSON array.
pub uninterp spec fn json_elements(text: Seq<char>) -> Option<Seq<serde_json::Value>>;

/// The strings that a JSON object holds: for each key under which a string
/// stands, that string. A value that is no object holds none.
pub uninterp spec fn json_texts(value: serde_json::Value) -> Map<Seq<char>, Seq<char>>;

/// The arrays that a JSON object holds: for each key under which an array
/// stands, its elements, each as the string that it is, or as none if it
/// is no string. A value that is no object holds none.
pub uninterp spec fn json_text_lists(value: serde_json::Value) -> Map<
    Seq<char>,
    Seq<Option<Seq<char>>>,
>;

/// The string under `key` in a JSON value, if one stands there.
pub open spec fn text_under(value: serde_json::Value, key: Seq<char>) -> Option<Seq<char>> {
    if json_texts(value).contains_key(key) {
        Some(json_texts(value)[key])
    } else {
        None
    }
}

/// The elements of the array under `key` in a JSON value; none where no
/// array stands there.
pub open spec fn items_under(value: serde_json::Value, key: Seq<char>) -> Seq<Option<Seq<char>>> {
    if json_text_lists(value).contains_key(key) {
        json_text_lists(value)[key]
    } else {
        Seq::empty()
    }
}

/// The strings among these elements, in order.
pub open spec fn texts_among(items: Seq<Option<Seq<char>>>) -> Seq<Seq<char>>
    decreases items.len(),
{
    if items.len() == 0 {
        Seq::empty()
    } else {
        match items.last() {
            Some(t) => texts_among(items.drop_last()).push(t),
            None => texts_among(items.drop_last()),
        }
    }
}

/// The views of these optional strings, in order.
pub open spec fn option_views(items: Seq<Option<String>>) -> Seq<Option<Seq<char>>> {
    Seq::new(items.len(), |i: int| opt_view(items[i]))
}

/// The group that a JSON value describes: the strings under `type`, `scope`
/// and `description`, and the strings in the arrays under `files` and
/// `body_lines`.
pub open spec fn described_by(value: serde_json::Value) -> GroupSpecView {
    GroupSpecView {
        type_tag: text_under(value, "type"@),
        scope: text_under(value, "scope"@),
        description: text_under(value, "description"@),
        files: texts_among(items_under(value, "files"@)),
        body_lines: texts_among(items_under(value, "body_lines"@)),
    }
}

/// The groups that an answer describes: one for each element of the JSON
/// array that it holds; none if it holds no JSON array.
pub open spec fn specs_in(response: Seq<char>) -> Option<Seq<GroupSpecView>> {
    match json_elements(response) {
        Some(values) => Some(Seq::new(values.len(), |i: int| described_by(values[i]))),
        None => None,
    }
}

/// `serde_json::from_str` for a list of values: the elements of the JSON
/// array that the text holds; none if the text is no JSON array.
#[verifier::external_body]
fn json_array(text: &str) -> (r: Option<Vec<serde_json::Value>>)
    ensures
        match r {
            Some(values) => json_elements(text@) == Some(values@),
            None => json_elements(text@) is None,
        },
{
    serde_json::from_str(text).ok()
}

/// Indexing a value by a key, then `Value::as_str`: the string under the
/// key; none if the value is no object, has no such key, or holds no string
/// there.
#[verifier::external_body]
fn json_text_at(value: &serde_json::Value, key: &str) -> (r: Option<String>)
    ensures
        opt_view(r) == (if json_texts(*value).contains_key(key@) {
            Some(json_texts(*value)[key@])
        } else {
            None
        }),
{
    match value[key].as_str() {
        Some(s) => Some(s.to_string()),
        None => None,
    }
}

/// Indexing a value by a key, then `Value::as_array` and, on each element,
/// `Value::as_str`: the elements of the array under the key, each as the
/// string that it is, or as none; no elements if there is no array there.
#[verifier::external_body]
fn json_items_at(value: &serde_json::Value, key: &str) -> (r: Vec<Option<String>>)
    ensures
        option_views(r@) == (if json_text_lists(*value).contains_key(key@) {
            json_text_lists(*value)[key@]
        } else {
            Seq::empty()
        }),
{
    match value[key].as_array() {
        Some(items) => items.iter().map(|item| item.as_str().map(str::to_string)).collect(),
        None => Vec::new(),
    }
}

/// The strings among the elements of the array under `key`.
fn texts_at(value: &serde_json::Value, key: &str) -> (r: Vec<String>)
    ensures
        string_views(r@) == texts_among(items_under(*value, key@)),
{
    let items: Vec<Option<String>> = json_items_at(value, key);
    let ghost all = option_views(items@);
    let mut texts: Vec<String> = Vec::new();
    let mut i: usize = 0;
    assert(string_views(texts@) =~= texts_among(all.subrange(0, 0)));
    while i < items.len()
        invariant
            i <= items.len(),
            all == option_views(items@),
            string_views(texts@) == texts_among(all.subrange(0, i as int)),
        decreases items.len() - i,
    {
        let ghost before = string_views(texts@);
        let ghost upto = all.subrange(0, i + 1);
        assert(upto.drop_last() == all.subrange(0, i as int));
        assert(upto.last() == opt_view(items@[i as int]));
        match &items[i] {
            Some(t) => {
                texts.push(t.clone());
                assert(string_views(texts@) =~= before.push(t@));
            },
            None => {},
        }
        i += 1;
    }
    assert(all.subrange(0, items.len() as int) == all);
    texts
}

/// Reads the descriptions of groups off an assistant's answer: the fields
/// `type`, `scope`, `description`, `files` and `body_lines` of each element
/// of the JSON array. None if the answer is no JSON array.
pub fn read_group_specs(response: &str) -> (r: Option<Vec<GroupSpec>>)
    ensures
        match r {
            Some(specs) => specs_in(response@) == Some(spec_views(specs@)),
            None => specs_in(response@) is None,
        },
{
    let values: Vec<serde_json::Value> = match json_array(response) {
        Some(v) => v,
        None => {
            return None;
        },
    };
    let mut specs: Vec<GroupSpec> = Vec::new();
    let mut i: usize = 0;
    while i < values.len()
        invariant
            i <= values.len(),
            specs@.len() == i,
            forall|k: int| 0 <= k < i ==> (#[trigger] specs@[k])@ == described_by(values@[k]),
        decreases values.len() - i,
    {
        let value = &values[i];
        let spec: GroupSpec = GroupSpec {
            type_tag: json_text_at(value, "type"),
            scope: json_text_at(value, "scope"),
            description: json_text_at(value, "description"),
            files: texts_at(value, "files"),
            body_lines: texts_at(value, "body_lines"),
        };
        assert(spec@ == described_by(values@[i as int]));
        specs.push(spec);
        i += 1;
    }
    assert(spec_views(specs@) =~= Seq::new(
        values@.len(),
        |k: int| described_by(values@[k]),
    ));
    Some(specs)
}

/// The views of descriptions that may not have been read.
pub open spec fn opt_spec_views(specs: Option<Vec<GroupSpec>>) -> Option<Seq<GroupSpecView>> {
    match specs {
        Some(s) => Some(spec_views(s@)),
        None => None,
    }
}

/// `groups` are the groups that `specs` describe, a file stands in two of
/// them, and `failure` lists the repeats.
pub open spec fn has_repeats(
    specs: Seq<GroupSpecView>,
    files: Seq<ChangedFile>,
    ticket: Option<Seq<char>>,
    failure: DuplicateFiles,
    groups: Seq<ChangeGroup>,
) -> bool {
    &&& assembled(specs, files, ticket, groups)
    &&& failure.visits() == repeats(walk(groups), walk(groups).len() as int)
    &&& failure.visits().len() > 0
}

/// What group descriptions come to. Without descriptions, and where they
/// describe no group, nothing is returned, so that a single group has to
/// stand in. Else the groups they describe are returned if no file stands
/// in two of them; if one does, the failure lists the repeats.
pub open spec fn grouping_outcome(
    specs: Option<Seq<GroupSpecView>>,
    files: Seq<ChangedFile>,
    ticket: Option<Seq<char>>,
    r: Result<Option<Vec<ChangeGroup>>, CopilotError>,
) -> bool {
    match specs {
        None => r matches Ok(None),
        Some(s) => match r {
            Ok(Some(groups)) => {
                &&& assembled(s, files, ticket, groups@)
                &&& groups@.len() > 0
                &&& all_distinct(walk(groups@))
            },
            Ok(None) => assembled(s, files, ticket, Seq::<ChangeGroup>::empty()),
            Err(e) => {
                &&& e is Duplicates
                &&& exists|groups: Seq<ChangeGroup>| #[trigger]
                    has_repeats(s, files, ticket, e->Duplicates_0, groups)
            },
        },
    }
}

/// What the descriptions that were read of an answer come to: the groups
/// they describe, if there is any and no file stands in two of them; the
/// failure that lists the repeats, if one does; nothing where the answer
/// was unreadable or describes no group, so that a single group has to
/// stand in.
pub fn groups_or_fallback(
    specs: Option<Vec<GroupSpec>>,
    files: &Vec<ChangedFile>,
    ticket: &Option<String>,
) -> (r: Result<Option<Vec<ChangeGroup>>, CopilotError>)
    ensures
        grouping_outcome(opt_spec_views(specs), files@, opt_view(*ticket), r),
        match r {
            Ok(Some(groups)) => specs matches Some(s) && assembled(
                spec_views(s@),
                files@,
                opt_view(*ticket),
                groups@,
            ) && groups@.len() > 0 && all_distinct(walk(groups@)),
            Ok(None) => match specs {
                Some(s) => assembled(
                    spec_views(s@),
                    files@,
                    opt_view(*ticket),
                    Seq::<ChangeGroup>::empty(),
                ),
                None => true,
            },
            Err(e) => specs is Some && e is Duplicates,
        },
        specs is None ==> r matches Ok(None),
{
    match specs {
        Some(s) => {
            let groups: Vec<ChangeGroup> = groups_from_specs(&s, files, ticket);
            if groups.len() == 0 {
                assert(groups@ =~= Seq::<ChangeGroup>::empty());
                return Ok(None);
            }
            match validate_no_duplicate_files(groups.as_slice()) {
                Ok(_) => Ok(Some(groups)),
                Err(d) => {
                    let failure: CopilotError = CopilotError::Duplicates(d);
                    assert(has_repeats(
                        opt_spec_views(specs)->0,
                        files@,
                        opt_view(*ticket),
                        failure->Duplicates_0,
                        groups@,
                    ));
                    Err(failure)
                },
            }
        },
        None => Ok(None),
    }
}

/// Parses an assistant's answer into commit groups. Returns the groups
/// that the answer describes; nothing where the answer is no JSON array or
/// describes no group with a file of the working set, so that a single group
/// has to stand in; the failure where a file stands in two groups.
pub fn parse_groups_from_response(
    response: &str,
    files: &Vec<ChangedFile>,
    ticket: &Option<String>,
) -> (r: Result<Option<Vec<ChangeGroup>>, CopilotError>)
    ensures
        grouping_outcome(specs_in(response@), files@, opt_view(*ticket), r),
{
    let specs: Option<Vec<GroupSpec>> = read_group_specs(response);
    groups_or_fallback(specs, files, ticket)
}

/// The paths of the first `n` files with a comma and a space between each
/// two neighbours.
pub open spec fn comma_paths(files: Seq<ChangedFile>, n: int) -> Seq<char>
    decreases n,
{
    if n <= 0 {
        Seq::empty()
    } else if n == 1 {
        files[0].path@
    } else {
        comma_paths(files, n - 1) + ", "@ + files[n - 1].path@
    }
}

/// The prompt that asks for the description of the single group that stands
/// in for a grouping.
pub open spec fn fallback_prompt_text(commit_type: CommitType, files: Seq<ChangedFile>) -> Seq<char> {
    "Generate a short commit description (max 50 chars) for:\nType: "@ + commit_type.tag()
        + "\nFiles: "@ + comma_paths(files, files.len() as int)
        + "\n\nRespond with:\n**START COMMIT MESSAGE**\n<your description here>\n**END COMMIT MESSAGE**\n"@
}

/// The path whose type and scope the single group takes: that of the first
/// file; empty without files.
pub open spec fn leading_path(files: Seq<ChangedFile>) -> Seq<char> {
    if files.len() > 0 {
        files[0].path@
    } else {
        Seq::empty()
    }
}

fn first_path(files: &Vec<ChangedFile>) -> (r: String)
    ensures
        r@ == leading_path(files@),
{
    if files.len() > 0 {
        files[0].path.clone()
    } else {
        String::new()
    }
}

/// Builds the prompt that asks for the description of the single group
/// that stands in for a grouping.
pub fn build_fallback_prompt(files: &Vec<ChangedFile>) -> (r: String)
    ensures
        r@ == fallback_prompt_text(commit_type_of(lowercase(leading_path(files@))), files@),
{
    let path: String = first_path(files);
    let commit_type: CommitType = infer_commit_type(path.as_str());
    let mut out: Vec<char> = chars_of(
        "Generate a short commit description (max 50 chars) for:\nType: ",
    );
    append_str(&mut out, commit_type.as_str());
    append_str(&mut out, "\nFiles: ");
    let ghost head = out@;
    let mut i: usize = 0;
    assert(out@ == head + Seq::<char>::empty());
    while i < files.len()
        invariant
            i <= files.len(),
            out@ == head + comma_paths(files@, i as int),
        decreases files.len() - i,
    {
        let ghost before = comma_paths(files@, i as int);
        if i > 0 {
            append_str(&mut out, ", ");
            append_str(&mut out, files[i].path.as_str());
            assert(out@ == head + (before + ", "@ + files@[i as int].path@));
        } else {
            append_str(&mut out, files[i].path.as_str());
            assert(out@ == head + files@[0].path@);
        }
        i += 1;
    }
    append_str(
        &mut out,
        "\n\nRespond with:\n**START COMMIT MESSAGE**\n<your description here>\n**END COMMIT MESSAGE**\n",
    );
    string_of(&out)
}

/// The description of the single group: the first line of the assistant's
/// answer if there is one; else the inferred description; `update files`
/// without files.
pub open spec fn fallback_description(files: Seq<ChangedFile>, answer: Option<Seq<char>>) -> Seq<char> {
    if files.len() == 0 {
        "update files"@
    } else if answer is Some && split_lines(answer->0).len() > 0 {
        split_lines(answer->0)[0]
    } else {
        description_for(
            paths_of(files),
            commit_type_of(lowercase(leading_path(files))),
            scope_of(leading_path(files)),
        )
    }
}

/// `g` is the single group that stands in for a grouping of `files`: it
/// holds all of them, with the type and scope of the first.
pub open spec fn is_fallback_group(
    files: Seq<ChangedFile>,
    ticket: Option<Seq<char>>,
    answer: Option<Seq<char>>,
    g: ChangeGroup,
) -> bool {
    &&& g.commit_type == commit_type_of(lowercase(leading_path(files)))
    &&& opt_view(g.scope) == scope_of(leading_path(files))
    &&& g.files@ == files
    &&& opt_view(g.ticket) == ticket
    &&& g.description@ == fallback_description(files, answer)
    &&& string_views(g.body_lines@) == body_lines_for(files)
    &&& !g.committed
}

/// Creates the single group that stands in when assisted grouping gave no
/// groups. `answer` is what the assistant answered to the prompt of
/// `build_fallback_prompt`, if it answered.
pub fn fallback_single_group(files: Vec<ChangedFile>, ticket: Option<String>, answer: Option<String>) -> (r:
    Vec<ChangeGroup>)
    ensures
        r@.len() == 1,
        is_fallback_group(files@, opt_view(ticket), opt_view(answer), r@[0]),
{
    let path: String = first_path(&files);
    let commit_type: CommitType = infer_commit_type(path.as_str());
    let scope: Option<String> = infer_scope(path.as_str());
    let description: String = if files.len() == 0 {
        string_of(&chars_of("update files"))
    } else {
        let first_line: Option<String> = match &answer {
            Some(a) => {
                let chars: Vec<char> = chars_of(a.as_str());
                let lines: Vec<Vec<char>> = lines_of(&chars);
                if lines.len() > 0 {
                    assert(lines@[0]@ == views(lines@)[0]);
                    Some(string_of(&lines[0]))
                } else {
                    assert(views(lines@).len() == 0);
                    None
                }
            },
            None => None,
        };
        match first_line {
            Some(line) => line,
            None => infer_description(files.as_slice(), commit_type, &scope),
        }
    };
    let body_lines: Vec<String> = infer_body_lines(files.as_slice());
    let mut groups: Vec<ChangeGroup> = Vec::new();
    groups.push(ChangeGroup::new(commit_type, scope, files, ticket, description, body_lines));
    groups
}

/// What a failed run of the assistant is reported with: what it wrote to
/// its error stream, or to its output where that is empty.
pub open spec fn failure_text(stderr: Seq<char>, stdout: Seq<char>) -> Seq<char> {
    "GitHub Copilot CLI failed: "@ + (if stderr.len() > 0 {
        stderr
    } else {
        stdout
    })
}

/// Renders the report of a failed run of the assistant.
pub fn cli_failure_message(stderr: &str, stdout: &str) -> (r: String)
    ensures
        r@ == failure_text(stderr@, stdout@),
{
    let mut out: Vec<char> = chars_of("GitHub Copilot CLI failed: ");
    let errors: Vec<char> = chars_of(stderr);
    if errors.len() > 0 {
        append(&mut out, &errors);
    } else {
        append_str(&mut out, stdout);
    }
    string_of(&out)
}

/// The repeats recorded so far, as visits of the walk.
pub open spec fn dup_visits(d: Seq<DuplicateFile>) -> Seq<Visit> {
    Seq::new(d.len(), |i: int| d[i].visit())
}

/// Tells whether `path` is one of `seen`.
fn holds(seen: &Vec<String>, path: &String) -> (b: bool)
    ensures
        b == exists|j: int| 0 <= j < seen@.len() && (#[trigger] seen@[j])@ == path@,
{
    let mut i: usize = 0;
    while i < seen.len()
        invariant
            i <= seen.len(),
            forall|j: int| 0 <= j < i ==> (#[trigger] seen@[j])@ != path@,
        decreases seen.len() - i,
    {
        if seen[i] == *path {
            return true;
        }
        i += 1;
    }
    false
}

} // verus!
