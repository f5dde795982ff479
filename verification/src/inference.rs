//! Inference logic for commit types, scopes, and descriptions.
//!
//! Commit types and scopes are read off file paths; descriptions and body
//! lines are made from the files of a group.

use crate::text::{
    append, append_str, begins, chars_of, contains_seq, decimal, decimal_of, ends, ends_with,
    find_char_from, has, index_of_char, is, lowercase, slice_of, starts_with, string_of,
    string_views, to_lowercase,
};
use crate::types::{
    has_all, opt_view, ChangeGroup, ChangedFile, CommitType, INDEX_DELETED, INDEX_MODIFIED,
    INDEX_NEW, INDEX_RENAMED,
};
use vstd::prelude::*;

verus! {

/// A lowercased path names a test.
pub open spec fn names_test(lower: Seq<char>) -> bool {
    contains_seq(lower, "test"@) || contains_seq(lower, "spec"@)
}

/// A lowercased path names documentation. A plain text file counts unless
/// it belongs to the build system, as `CMakeLists.txt` does.
pub open spec fn names_documentation(lower: Seq<char>) -> bool {
    ||| ends_with(lower, ".md"@)
    ||| ends_with(lower, ".rst"@)
    ||| (ends_with(lower, ".txt"@) && !names_build(lower))
    ||| ends_with(lower, ".adoc"@)
    ||| contains_seq(lower, "/docs/"@)
    ||| starts_with(lower, "docs/"@)
    ||| lower == "readme"@
    ||| lower == "changelog"@
    ||| lower == "contributing"@
}

/// A lowercased path names a CI/CD configuration.
pub open spec fn names_ci(lower: Seq<char>) -> bool {
    ||| contains_seq(lower, ".github"@)
    ||| contains_seq(lower, ".gitlab"@)
    ||| contains_seq(lower, "jenkins"@)
    ||| contains_seq(lower, "pipeline"@)
    ||| ends_with(lower, "ci.yml"@)
    ||| ends_with(lower, "ci.yaml"@)
    ||| ends_with(lower, ".travis.yml"@)
    ||| contains_seq(lower, "circleci"@)
    ||| contains_seq(lower, "azure-pipelines"@)
}

/// A lowercased path names a file of the build system.
pub open spec fn names_build(lower: Seq<char>) -> bool {
    ||| contains_seq(lower, "dockerfile"@)
    ||| ends_with(lower, "package.json"@)
    ||| ends_with(lower, "package-lock.json"@)
    ||| ends_with(lower, "yarn.lock"@)
    ||| ends_with(lower, "pnpm-lock.yaml"@)
    ||| ends_with(lower, "composer.json"@)
    ||| ends_with(lower, "composer.lock"@)
    ||| ends_with(lower, "cargo.toml"@)
    ||| ends_with(lower, "cargo.lock"@)
    ||| ends_with(lower, "build.gradle"@)
    ||| ends_with(lower, "pom.xml"@)
    ||| ends_with(lower, "go.mod"@)
    ||| ends_with(lower, "go.sum"@)
    ||| contains_seq(lower, "cmake"@)
    ||| contains_seq(lower, "makefile"@)
}

/// A lowercased path names a styling file.
pub open spec fn names_style(lower: Seq<char>) -> bool {
    ||| ends_with(lower, ".css"@)
    ||| ends_with(lower, ".scss"@)
    ||| ends_with(lower, ".sass"@)
    ||| ends_with(lower, ".less"@)
    ||| ends_with(lower, ".styl"@)
    ||| contains_seq(lower, "/styles/"@)
    ||| contains_seq(lower, "/css/"@)
}

/// The commit type of a lowercased path: the first that fits of test,
/// documentation, CI, build and style; a feature if none does.
pub open spec fn commit_type_of(lower: Seq<char>) -> CommitType {
    if names_test(lower) {
        CommitType::Test
    } else if names_documentation(lower) {
        CommitType::Docs
    } else if names_ci(lower) {
        CommitType::Ci
    } else if names_build(lower) {
        CommitType::Build
    } else if names_style(lower) {
        CommitType::Style
    } else {
        CommitType::Feat
    }
}

/// Checks if a lowercased path is a documentation file.
pub fn is_documentation_file(path: &str) -> (b: bool)
    ensures
        b == names_documentation(path@),
{
    let p: Vec<char> = chars_of(path);
    ends(&p, ".md") || ends(&p, ".rst") || (ends(&p, ".txt") && !is_build_file(path)) || ends(
        &p,
        ".adoc",
    ) || has(&p, "/docs/") || begins(&p, "docs/") || is(&p, "readme") || is(&p, "changelog") || is(
        &p,
        "contributing",
    )
}

/// Checks if a lowercased path is a CI/CD configuration file.
pub fn is_ci_file(path: &str) -> (b: bool)
    ensures
        b == names_ci(path@),
{
    let p: Vec<char> = chars_of(path);
    has(&p, ".github") || has(&p, ".gitlab") || has(&p, "jenkins") || has(&p, "pipeline") || ends(
        &p,
        "ci.yml",
    ) || ends(&p, "ci.yaml") || ends(&p, ".travis.yml") || has(&p, "circleci") || has(
        &p,
        "azure-pipelines",
    )
}

/// Checks if a lowercased path is a build system file.
pub fn is_build_file(path: &str) -> (b: bool)
    ensures
        b == names_build(path@),
{
    let p: Vec<char> = chars_of(path);
    has(&p, "dockerfile") || ends(&p, "package.json") || ends(&p, "package-lock.json") || ends(
        &p,
        "yarn.lock",
    ) || ends(&p, "pnpm-lock.yaml") || ends(&p, "composer.json") || ends(&p, "composer.lock")
        || ends(&p, "cargo.toml") || ends(&p, "cargo.lock") || ends(&p, "build.gradle") || ends(
        &p,
        "pom.xml",
    ) || ends(&p, "go.mod") || ends(&p, "go.sum") || has(&p, "cmake") || has(&p, "makefile")
}

/// Checks if a lowercased path is a styling file.
pub fn is_style_file(path: &str) -> (b: bool)
    ensures
        b == names_style(path@),
{
    let p: Vec<char> = chars_of(path);
    ends(&p, ".css") || ends(&p, ".scss") || ends(&p, ".sass") || ends(&p, ".less") || ends(
        &p,
        ".styl",
    ) || has(&p, "/styles/") || has(&p, "/css/")
}

/// The commit type of a path that is in lowercase already.
pub fn classify_lowercase(lower: &str) -> (r: CommitType)
    ensures
        r == commit_type_of(lower@),
{
    let p: Vec<char> = chars_of(lower);
    if has(&p, "test") || has(&p, "spec") {
        return CommitType::Test;
    }
    if is_documentation_file(lower) {
        return CommitType::Docs;
    }
    if is_ci_file(lower) {
        return CommitType::Ci;
    }
    if is_build_file(lower) {
        return CommitType::Build;
    }
    if is_style_file(lower) {
        return CommitType::Style;
    }
    CommitType::Feat
}

/// Infers the appropriate commit type from a file path: the path is put in
/// lowercase and classified.
pub fn infer_commit_type(path: &str) -> (r: CommitType)
    ensures
        r == commit_type_of(lowercase(path@)),
{
    let lower: String = to_lowercase(path);
    classify_lowercase(lower.as_str())
}

/// What stands before the first slash of a path; the whole path if it has
/// no slash.
pub open spec fn first_segment(path: Seq<char>) -> Seq<char> {
    path.subrange(0, index_of_char(path, '/'))
}

/// The scope that a path stands for: its first segment, unless that is
/// empty, begins with a dot, or ends in `.md` once in lowercase.
pub open spec fn scope_of(path: Seq<char>) -> Option<Seq<char>> {
    let first = first_segment(path);
    if first.len() == 0 || first[0] == '.' || ends_with(lowercase(first), ".md"@) {
        None
    } else {
        Some(first)
    }
}

/// The scope for a first segment whose lowercase form is `lower`.
pub open spec fn scope_for(first: Seq<char>, lower: Seq<char>) -> Option<Seq<char>> {
    if first.len() == 0 || first[0] == '.' || ends_with(lower, ".md"@) {
        None
    } else {
        Some(first)
    }
}

/// Decides on the scope for a first segment, given its lowercase form.
pub fn scope_from_segment(first: &str, lower: &str) -> (r: Option<String>)
    ensures
        opt_view(r) == scope_for(first@, lower@),
{
    let f: Vec<char> = chars_of(first);
    let l: Vec<char> = chars_of(lower);
    if f.len() == 0 || f[0] == '.' || ends(&l, ".md") {
        return None;
    }
    Some(string_of(&f))
}

/// Extracts a scope from a file path: the first directory segment, or
/// `None` where that is no meaningful scope.
pub fn infer_scope(path: &str) -> (r: Option<String>)
    ensures
        opt_view(r) == scope_of(path@),
{
    let p: Vec<char> = chars_of(path);
    let k: usize = find_char_from(&p, '/', 0);
    assert(p@.subrange(0, p.len() as int) == p@);
    let first: Vec<char> = slice_of(&p, 0, k);
    let first_text: String = string_of(&first);
    let lower: String = to_lowercase(first_text.as_str());
    scope_from_segment(first_text.as_str(), lower.as_str())
}

/// The verb with which a description of this commit type begins.
pub open spec fn action_of(commit_type: CommitType) -> Seq<char> {
    match commit_type {
        CommitType::Feat => "add"@,
        CommitType::Fix => "fix"@,
        CommitType::Docs => "update"@,
        CommitType::Style => "format"@,
        CommitType::Refactor => "refactor"@,
        CommitType::Perf => "optimize"@,
        CommitType::Test => "update tests for"@,
        CommitType::Chore => "maintain"@,
        CommitType::Ci => "update CI for"@,
        CommitType::Build => "update build for"@,
    }
}

fn action_for(commit_type: CommitType) -> (r: &'static str)
    ensures
        r@ == action_of(commit_type),
{
    match commit_type {
        CommitType::Feat => "add",
        CommitType::Fix => "fix",
        CommitType::Docs => "update",
        CommitType::Style => "format",
        CommitType::Refactor => "refactor",
        CommitType::Perf => "optimize",
        CommitType::Test => "update tests for",
        CommitType::Chore => "maintain",
        CommitType::Ci => "update CI for",
        CommitType::Build => "update build for",
    }
}

/// Index of the last `c` in `s`, or -1.
pub open spec fn last_index_of_char(s: Seq<char>, c: char) -> int
    decreases s.len(),
{
    if s.len() == 0 {
        -1
    } else if s.last() == c {
        s.len() - 1
    } else {
        last_index_of_char(s.drop_last(), c)
    }
}

/// What stands after the last slash of a path; the whole path if it has no
/// slash.
pub open spec fn file_name_of(path: Seq<char>) -> Seq<char> {
    path.subrange(last_index_of_char(path, '/') + 1, path.len() as int)
}

/// What the description speaks of: the scope if there is one; else the name
/// of the file if there is exactly one; else the number of files.
pub open spec fn subject_of(paths: Seq<Seq<char>>, scope: Option<Seq<char>>) -> Seq<char> {
    match scope {
        Some(s) => s,
        None => if paths.len() == 1 {
            file_name_of(paths[0])
        } else {
            decimal(paths.len()) + " files"@
        },
    }
}

/// The description for a group of these files.
pub open spec fn description_for(
    paths: Seq<Seq<char>>,
    commit_type: CommitType,
    scope: Option<Seq<char>>,
) -> Seq<char> {
    action_of(commit_type) + " "@ + subject_of(paths, scope)
}

/// The paths of these files, in order.
pub open spec fn paths_of(files: Seq<ChangedFile>) -> Seq<Seq<char>> {
    Seq::new(files.len(), |i: int| files[i].path@)
}

/// The name of the file at `path`, without its directories.
pub fn file_name(path: &str) -> (r: Vec<char>)
    ensures
        r@ == file_name_of(path@),
{
    let p: Vec<char> = chars_of(path);
    let n: usize = p.len();
    let mut j: usize = n;
    assert(p@.subrange(0, n as int) == p@);
    while j > 0 && p[j - 1] != '/'
        invariant
            j <= n,
            n == p.len(),
            last_index_of_char(p@, '/') == last_index_of_char(p@.subrange(0, j as int), '/'),
        decreases j,
    {
        assert(p@.subrange(0, j as int).drop_last() == p@.subrange(0, j - 1));
        j -= 1;
    }
    slice_of(&p, j, n)
}

/// Generates a description from the files and context of a group: a verb
/// for the commit type, then the scope, the single file's name, or the
/// number of files.
pub fn infer_description(files: &[ChangedFile], commit_type: CommitType, scope: &Option<String>) -> (r:
    String)
    ensures
        r@ == description_for(paths_of(files@), commit_type, opt_view(*scope)),
{
    let mut out: Vec<char> = chars_of(action_for(commit_type));
    append_str(&mut out, " ");
    let ghost head = out@;
    match scope {
        Some(s) => {
            append_str(&mut out, s.as_str());
        },
        None => {
            if files.len() == 1 {
                let name: Vec<char> = file_name(files[0].path.as_str());
                append(&mut out, &name);
            } else {
                let count: Vec<char> = decimal_of(files.len());
                append(&mut out, &count);
                append_str(&mut out, " files");
                assert(out@ == head + (decimal(files@.len()) + " files"@));
            }
        },
    }
    string_of(&out)
}

/// The verb that tells what happened to a file with this status.
pub open spec fn file_action_of(status: u32) -> Seq<char> {
    if has_all(status, INDEX_NEW) {
        "add"@
    } else if has_all(status, INDEX_DELETED) {
        "remove"@
    } else if has_all(status, INDEX_MODIFIED) {
        "modify"@
    } else if has_all(status, INDEX_RENAMED) {
        "rename"@
    } else {
        "update"@
    }
}

/// The body line for one file.
pub open spec fn file_line(file: ChangedFile) -> Seq<char> {
    file_action_of(file.status) + " "@ + file.path@
}

/// The body lines for these files: one for each of the first twenty, and a
/// closing line that counts the others if there are more.
pub open spec fn body_lines_for(files: Seq<ChangedFile>) -> Seq<Seq<char>> {
    let shown = if files.len() > 20 {
        20
    } else {
        files.len() as int
    };
    let lines = Seq::new(shown as nat, |i: int| file_line(files[i]));
    if files.len() > 20 {
        lines.push("... and "@ + decimal((files.len() - 20) as nat) + " more files"@)
    } else {
        lines
    }
}

/// Generates bullet points for the commit body based on the files.
pub fn infer_body_lines(files: &[ChangedFile]) -> (r: Vec<String>)
    ensures
        string_views(r@) == body_lines_for(files@),
{
    let n: usize = files.len();
    let shown: usize = if n > 20 {
        20
    } else {
        n
    };
    let mut lines: Vec<String> = Vec::new();
    let mut i: usize = 0;
    while i < shown
        invariant
            i <= shown <= n,
            n == files.len(),
            lines@.len() == i,
            forall|k: int| 0 <= k < i ==> (#[trigger] lines@[k])@ == file_line(files@[k]),
        decreases shown - i,
    {
        let f = &files[i];
        let action: &str = if f.is_new() {
            "add"
        } else if f.is_deleted() {
            "remove"
        } else if f.is_modified() {
            "modify"
        } else if f.is_renamed() {
            "rename"
        } else {
            "update"
        };
        let mut out: Vec<char> = chars_of(action);
        append_str(&mut out, " ");
        append_str(&mut out, f.path.as_str());
        lines.push(string_of(&out));
        i += 1;
    }
    if n > 20 {
        let mut out: Vec<char> = chars_of("... and ");
        let count: Vec<char> = decimal_of(n - 20);
        append(&mut out, &count);
        append_str(&mut out, " more files");
        lines.push(string_of(&out));
    }
    assert(string_views(lines@) =~= body_lines_for(files@));
    lines
}

/// What files are grouped by: the commit type and the scope.
pub struct GroupKey {
    /// The commit type
    pub commit_type: CommitType,
    /// The scope
    pub scope: Option<Seq<char>>,
}

/// The key of the file at `path`.
pub open spec fn key_of(path: Seq<char>) -> GroupKey {
    GroupKey { commit_type: commit_type_of(lowercase(path)), scope: scope_of(path) }
}

/// `a` stands before `b` in the order of the dictionary, character by
/// character.
pub open spec fn text_before(a: Seq<char>, b: Seq<char>) -> bool
    decreases a.len(),
{
    if b.len() == 0 {
        false
    } else if a.len() == 0 {
        true
    } else if a[0] != b[0] {
        (a[0] as u32) < (b[0] as u32)
    } else {
        text_before(a.drop_first(), b.drop_first())
    }
}

/// No scope stands before any scope; two scopes stand as their texts do.
pub open spec fn scope_before(a: Option<Seq<char>>, b: Option<Seq<char>>) -> bool {
    match (a, b) {
        (None, Some(_)) => true,
        (Some(x), Some(y)) => text_before(x, y),
        _ => false,
    }
}

/// The order of the groups: by commit type, and within one by scope.
pub open spec fn key_before(a: GroupKey, b: GroupKey) -> bool {
    a.commit_type.rank() < b.commit_type.rank() || (a.commit_type == b.commit_type
        && scope_before(a.scope, b.scope))
}

/// Of two texts exactly one holds: the first stands before the second, they
/// are the same, or the second stands before the first.
pub proof fn lemma_text_order_total(a: Seq<char>, b: Seq<char>)
    ensures
        text_before(a, b) || a == b || text_before(b, a),
        !(text_before(a, b) && a == b),
        !(text_before(a, b) && text_before(b, a)),
    decreases a.len(),
{
    if a.len() > 0 && b.len() > 0 && a[0] == b[0] {
        lemma_text_order_total(a.drop_first(), b.drop_first());
        if a.drop_first() == b.drop_first() {
            assert(a =~= seq![a[0]] + a.drop_first());
            assert(b =~= seq![b[0]] + b.drop_first());
        }
        if a == b {
            assert(a.drop_first() == b.drop_first());
        }
    } else if a.len() == 0 && b.len() == 0 {
        assert(a =~= b);
    } else if a.len() > 0 && b.len() > 0 {
        vstd::utf8::char_u32_cast(a[0], a[0] as u32);
        vstd::utf8::char_u32_cast(b[0], b[0] as u32);
    }
}

/// The order of texts is transitive.
pub proof fn lemma_text_order_transitive(a: Seq<char>, b: Seq<char>, c: Seq<char>)
    requires
        text_before(a, b),
        text_before(b, c),
    ensures
        text_before(a, c),
    decreases a.len(),
{
    if a.len() > 0 && a[0] == b[0] && b[0] == c[0] {
        lemma_text_order_transitive(a.drop_first(), b.drop_first(), c.drop_first());
    }
}

/// Of two keys exactly one holds: the first stands before the second, they
/// are the same, or the second stands before the first.
pub proof fn lemma_key_order_total(a: GroupKey, b: GroupKey)
    ensures
        key_before(a, b) || a == b || key_before(b, a),
        !(key_before(a, b) && a == b),
        !(key_before(a, b) && key_before(b, a)),
{
    if a.commit_type == b.commit_type {
        match (a.scope, b.scope) {
            (Some(x), Some(y)) => {
                lemma_text_order_total(x, y);
            },
            _ => {},
        }
    }
}

/// The order of keys is transitive.
pub proof fn lemma_key_order_transitive(a: GroupKey, b: GroupKey, c: GroupKey)
    requires
        key_before(a, b),
        key_before(b, c),
    ensures
        key_before(a, c),
{
    if a.commit_type == b.commit_type && b.commit_type == c.commit_type {
        match (a.scope, b.scope, c.scope) {
            (Some(x), Some(y), Some(z)) => {
                lemma_text_order_transitive(x, y, z);
            },
            _ => {},
        }
    }
}

/// The files among the first `n` of `files` that have this key, in order.
pub open spec fn files_with_key(files: Seq<ChangedFile>, key: GroupKey, n: int) -> Seq<ChangedFile>
    decreases n,
{
    if n <= 0 {
        Seq::empty()
    } else if key_of(files[n - 1].path@) == key {
        files_with_key(files, key, n - 1).push(files[n - 1])
    } else {
        files_with_key(files, key, n - 1)
    }
}

/// The key of a group.
pub open spec fn group_key(group: ChangeGroup) -> GroupKey {
    GroupKey { commit_type: group.commit_type, scope: opt_view(group.scope) }
}

/// A group of the grouping of `files`: it holds the files of its key, in
/// their order and at least one; it carries the ticket; its description and
/// body lines are the inferred ones; it is not committed.
pub open spec fn is_group_of(files: Seq<ChangedFile>, ticket: Option<Seq<char>>, g: ChangeGroup) -> bool {
    &&& g.files@ == files_with_key(files, group_key(g), files.len() as int)
    &&& g.files@.len() > 0
    &&& opt_view(g.ticket) == ticket
    &&& g.description@ == description_for(paths_of(g.files@), g.commit_type, opt_view(g.scope))
    &&& string_views(g.body_lines@) == body_lines_for(g.files@)
    &&& !g.committed
}

/// `groups` is the grouping of `files`: one group for each key that a file
/// has, in the order of the keys.
pub open spec fn is_grouping_of(
    files: Seq<ChangedFile>,
    ticket: Option<Seq<char>>,
    groups: Seq<ChangeGroup>,
) -> bool {
    &&& forall|i: int| 0 <= i < groups.len() ==> is_group_of(files, ticket, #[trigger] groups[i])
    &&& forall|i: int, j: int|
        0 <= i < j < groups.len() ==> key_before(
            group_key(#[trigger] groups[i]),
            group_key(#[trigger] groups[j]),
        )
    &&& forall|k: int|
        0 <= k < files.len() ==> exists|i: int|
            0 <= i < groups.len() && group_key(#[trigger] groups[i]) == key_of(
                (#[trigger] files[k]).path@,
            )
}

/// Files of one key, while the grouping is built.
struct Bucket {
    commit_type: CommitType,
    scope: Option<String>,
    files: Vec<ChangedFile>,
}

impl Bucket {
    spec fn key(&self) -> GroupKey {
        GroupKey { commit_type: self.commit_type, scope: opt_view(self.scope) }
    }
}

/// Tells whether `a` stands before `b` in the order of the dictionary.
pub fn text_less(a: &str, b: &str) -> (r: bool)
    ensures
        r == text_before(a@, b@),
{
    let x: Vec<char> = chars_of(a);
    let y: Vec<char> = chars_of(b);
    let mut i: usize = 0;
    assert(x@.subrange(0, x.len() as int) == x@);
    assert(y@.subrange(0, y.len() as int) == y@);
    loop
        invariant
            i <= x.len(),
            i <= y.len(),
            x@ == a@,
            y@ == b@,
            text_before(x@, y@) == text_before(
                x@.subrange(i as int, x.len() as int),
                y@.subrange(i as int, y.len() as int),
            ),
        decreases x.len() - i,
    {
        let ghost xs = x@.subrange(i as int, x.len() as int);
        let ghost ys = y@.subrange(i as int, y.len() as int);
        if i >= y.len() {
            assert(ys.len() == 0);
            return false;
        }
        if i >= x.len() {
            assert(xs.len() == 0);
            return true;
        }
        let cx: char = x[i];
        let cy: char = y[i];
        assert(xs[0] == cx && ys[0] == cy);
        if cx != cy {
            let p: u32 = cx as u32;
            let q: u32 = cy as u32;
            return p < q;
        }
        assert(x@.subrange(i as int, x.len() as int).drop_first() == x@.subrange(
            i + 1,
            x.len() as int,
        ));
        assert(y@.subrange(i as int, y.len() as int).drop_first() == y@.subrange(
            i + 1,
            y.len() as int,
        ));
        i += 1;
    }
}

fn scope_less(a: &Option<String>, b: &Option<String>) -> (r: bool)
    ensures
        r == scope_before(opt_view(*a), opt_view(*b)),
{
    match (a, b) {
        (None, Some(_)) => true,
        (Some(x), Some(y)) => text_less(x.as_str(), y.as_str()),
        _ => false,
    }
}

fn same_scope(a: &Option<String>, b: &Option<String>) -> (r: bool)
    ensures
        r == (opt_view(*a) == opt_view(*b)),
{
    match (a, b) {
        (None, None) => true,
        (Some(x), Some(y)) => *x == *y,
        _ => false,
    }
}

fn copy_of(text: &Option<String>) -> (r: Option<String>)
    ensures
        r == *text,
{
    match text {
        Some(t) => Some(t.clone()),
        None => None,
    }
}

/// The buckets hold the grouping of the first `n` files.
spec fn buckets_hold(buckets: Seq<Bucket>, files: Seq<ChangedFile>, n: int) -> bool {
    &&& forall|i: int|
        0 <= i < buckets.len() ==> (#[trigger] buckets[i]).files@ == files_with_key(
            files,
            buckets[i].key(),
            n,
        ) && buckets[i].files@.len() > 0
    &&& forall|i: int, j: int|
        0 <= i < j < buckets.len() ==> key_before(
            (#[trigger] buckets[i]).key(),
            (#[trigger] buckets[j]).key(),
        )
    &&& forall|k: int|
        0 <= k < n ==> exists|i: int|
            0 <= i < buckets.len() && (#[trigger] buckets[i]).key() == key_of(
                (#[trigger] files[k]).path@,
            )
}

/// Where none of the first `n` files has the key, none is found.
proof fn lemma_no_file_with_key(files: Seq<ChangedFile>, key: GroupKey, n: int)
    requires
        0 <= n <= files.len(),
        forall|k: int| 0 <= k < n ==> key_of((#[trigger] files[k]).path@) != key,
    ensures
        files_with_key(files, key, n) == Seq::<ChangedFile>::empty(),
    decreases n,
{
    if n > 0 {
        lemma_no_file_with_key(files, key, n - 1);
    }
}

/// Puts one more file into the buckets.
fn place(buckets: &mut Vec<Bucket>, file: ChangedFile, Ghost(files): Ghost<Seq<ChangedFile>>, Ghost(
    n,
): Ghost<int>)
    requires
        0 <= n < files.len(),
        files[n] == file,
        buckets_hold(old(buckets)@, files, n),
    ensures
        buckets_hold(final(buckets)@, files, n + 1),
{
    let commit_type: CommitType = infer_commit_type(file.path.as_str());
    let scope: Option<String> = infer_scope(file.path.as_str());
    let ghost key = key_of(file.path@);
    let ghost before = buckets@;
    let rank: u8 = commit_type.position();
    let mut i: usize = 0;
    while i < buckets.len() && (buckets[i].commit_type.position() < rank || (
    buckets[i].commit_type.position() == rank && scope_less(&buckets[i].scope, &scope)))
        invariant
            i <= buckets.len(),
            buckets@ == before,
            rank == commit_type.rank(),
            key == (GroupKey { commit_type, scope: opt_view(scope) }),
            forall|j: int| 0 <= j < i ==> key_before((#[trigger] before[j]).key(), key),
        decreases buckets.len() - i,
    {
        i += 1;
    }
    let found: bool = i < buckets.len() && buckets[i].commit_type.position() == rank
        && same_scope(&buckets[i].scope, &scope);
    if found {
        assert(before[i as int].key() == key);
        let mut bucket: Bucket = buckets.remove(i);
        bucket.files.push(file);
        buckets.insert(i, bucket);
        proof {
            let after = buckets@;
            assert(after.len() == before.len());
            assert forall|j: int| 0 <= j < after.len() implies (#[trigger] after[j]).key()
                == before[j].key() by {}
            assert forall|j: int| 0 <= j < after.len() implies (#[trigger] after[j]).files@
                == files_with_key(files, after[j].key(), n + 1) && after[j].files@.len() > 0 by {
                if j != i {
                    assert(after[j] == before[j]);
                    lemma_key_order_total(before[j].key(), key);
                    if j < i {
                        assert(key_before(before[j].key(), before[i as int].key()));
                    } else {
                        assert(key_before(before[i as int].key(), before[j].key()));
                    }
                }
            }
            assert forall|a: int, b: int| 0 <= a < b < after.len() implies key_before(
                (#[trigger] after[a]).key(),
                (#[trigger] after[b]).key(),
            ) by {
                assert(key_before(before[a].key(), before[b].key()));
            }
            assert forall|k: int| 0 <= k < n + 1 implies exists|j: int|
                0 <= j < after.len() && (#[trigger] after[j]).key() == key_of(
                    (#[trigger] files[k]).path@,
                ) by {
                if k < n {
                    let j = choose|j: int|
                        0 <= j < before.len() && (#[trigger] before[j]).key() == key_of(
                            files[k].path@,
                        );
                    assert(after[j].key() == key_of(files[k].path@));
                } else {
                    assert(after[i as int].key() == key_of(files[k].path@));
                }
            }
        }
    } else {
        proof {
            if i < before.len() {
                lemma_key_order_total(before[i as int].key(), key);
                assert(key_before(key, before[i as int].key()));
            }
            assert forall|k: int| 0 <= k < n implies key_of((#[trigger] files[k]).path@)
                != key by {
                let j = choose|j: int|
                    0 <= j < before.len() && (#[trigger] before[j]).key() == key_of(files[k].path@);
                lemma_key_order_total(before[j].key(), key);
                if j < i {
                } else if j > i {
                    lemma_key_order_transitive(key, before[i as int].key(), before[j].key());
                }
            }
            lemma_no_file_with_key(files, key, n);
        }
        let mut held: Vec<ChangedFile> = Vec::new();
        held.push(file);
        let bucket: Bucket = Bucket { commit_type, scope, files: held };
        assert(bucket.key() == key);
        buckets.insert(i, bucket);
        proof {
            let after = buckets@;
            assert(after.len() == before.len() + 1);
            assert forall|j: int| 0 <= j < after.len() implies (#[trigger] after[j]).files@
                == files_with_key(files, after[j].key(), n + 1) && after[j].files@.len() > 0 by {
                if j < i {
                    assert(after[j] == before[j]);
                    lemma_key_order_total(before[j].key(), key);
                } else if j > i {
                    assert(after[j] == before[j - 1]);
                    lemma_key_order_total(before[j - 1].key(), key);
                    if j - 1 > i {
                        lemma_key_order_transitive(key, before[i as int].key(), before[j - 1].key());
                    }
                }
            }
            assert forall|a: int, b: int| 0 <= a < b < after.len() implies key_before(
                (#[trigger] after[a]).key(),
                (#[trigger] after[b]).key(),
            ) by {
                if b < i {
                    assert(key_before(before[a].key(), before[b].key()));
                } else if b == i {
                    assert(key_before(before[a].key(), key));
                } else if a == i {
                    if b - 1 > i {
                        assert(key_before(before[i as int].key(), before[b - 1].key()));
                        lemma_key_order_transitive(key, before[i as int].key(), before[b - 1].key());
                    }
                } else if a < i {
                    assert(key_before(before[a].key(), before[b - 1].key()));
                } else {
                    assert(key_before(before[a - 1].key(), before[b - 1].key()));
                }
            }
            assert forall|k: int| 0 <= k < n + 1 implies exists|j: int|
                0 <= j < after.len() && (#[trigger] after[j]).key() == key_of(
                    (#[trigger] files[k]).path@,
                ) by {
                if k < n {
                    let j = choose|j: int|
                        0 <= j < before.len() && (#[trigger] before[j]).key() == key_of(
                            files[k].path@,
                        );
                    if j < i {
                        assert(after[j].key() == key_of(files[k].path@));
                    } else {
                        assert(after[j + 1].key() == key_of(files[k].path@));
                    }
                } else {
                    assert(after[i as int].key() == key_of(files[k].path@));
                }
            }
        }
    }
}

/// Groups changed files into logical commit groups: one group for each pair
/// of commit type and scope that a file has, with the files of that pair in
/// their order. The groups stand in the order of the commit types, and
/// within one type in the order of the scopes, no scope first. Each group
/// carries the ticket and gets its description and body lines inferred.
pub fn build_groups(files: Vec<ChangedFile>, ticket: Option<String>) -> (groups: Vec<ChangeGroup>)
    ensures
        is_grouping_of(files@, opt_view(ticket), groups@),
{
    let ghost all = files@;
    let mut buckets: Vec<Bucket> = Vec::new();
    let mut n: usize = 0;
    while n < files.len()
        invariant
            n <= files.len(),
            files@ == all,
            buckets_hold(buckets@, all, n as int),
        decreases files.len() - n,
    {
        let file: ChangedFile = files[n].duplicate();
        place(&mut buckets, file, Ghost(all), Ghost(n as int));
        n += 1;
    }
    let ghost held = buckets@;
    let mut groups: Vec<ChangeGroup> = Vec::new();
    while buckets.len() > 0
        invariant
            buckets_hold(held, all, all.len() as int),
            groups@.len() + buckets@.len() == held.len(),
            forall|i: int| 0 <= i < buckets@.len() ==> #[trigger] buckets@[i] == held[groups@.len() + i],
            forall|i: int|
                0 <= i < groups@.len() ==> is_group_of(all, opt_view(ticket), #[trigger] groups@[i])
                    && group_key(groups@[i]) == held[i].key(),
        decreases buckets.len(),
    {
        let ghost done = groups@.len() as int;
        let bucket: Bucket = buckets.remove(0);
        assert(bucket == held[done]);
        let description: String = infer_description(
            bucket.files.as_slice(),
            bucket.commit_type,
            &bucket.scope,
        );
        let body_lines: Vec<String> = infer_body_lines(bucket.files.as_slice());
        let group: ChangeGroup = ChangeGroup::new(
            bucket.commit_type,
            bucket.scope,
            bucket.files,
            copy_of(&ticket),
            description,
            body_lines,
        );
        assert(group_key(group) == held[done].key());
        groups.push(group);
    }
    proof {
        let result = groups@;
        assert forall|i: int, j: int| 0 <= i < j < result.len() implies key_before(
            group_key(#[trigger] result[i]),
            group_key(#[trigger] result[j]),
        ) by {
            assert(key_before(held[i].key(), held[j].key()));
        }
        assert forall|k: int| 0 <= k < all.len() implies exists|i: int|
            0 <= i < result.len() && group_key(#[trigger] result[i]) == key_of(
                (#[trigger] all[k]).path@,
            ) by {
            let i = choose|i: int|
                0 <= i < held.len() && (#[trigger] held[i]).key() == key_of(all[k].path@);
            assert(group_key(result[i]) == key_of(all[k].path@));
        }
    }
    groups
}

} // verus!
