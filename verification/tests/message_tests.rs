//! Tests for the rendering of a group as a commit message and for reading
//! edited text back.

use commit_wizard::copilot::{validate_no_duplicate_files, DuplicateFile, DuplicateFiles};
use commit_wizard::types::{
    ChangeGroup, ChangedFile, CommitType, INDEX_DELETED, INDEX_MODIFIED, INDEX_NEW, INDEX_RENAMED,
    INDEX_TYPECHANGE, WT_DELETED, WT_MODIFIED, WT_NEW, WT_RENAMED, WT_TYPECHANGE,
};

fn group(
    commit_type: CommitType,
    scope: Option<&str>,
    ticket: Option<&str>,
    description: &str,
    body: &[&str],
) -> ChangeGroup {
    ChangeGroup::new(
        commit_type,
        scope.map(|s| s.to_string()),
        vec![],
        ticket.map(|s| s.to_string()),
        description.to_string(),
        body.iter().map(|s| s.to_string()).collect(),
    )
}

#[test]
fn full_message_of_a_group_with_scope_ticket_and_body() {
    let g = group(CommitType::Feat, Some("api"), Some("LU-1"), "add login", &["validate token"]);
    assert_eq!(g.header(), "feat(api): LU-1: add login");
    assert_eq!(g.full_message(), "feat(api): LU-1: add login\n\n- validate token\n");
}

#[test]
fn header_forms() {
    assert_eq!(group(CommitType::Fix, None, None, "x", &[]).header(), "fix: x");
    assert_eq!(group(CommitType::Fix, Some("s"), None, "x", &[]).header(), "fix(s): x");
    assert_eq!(group(CommitType::Fix, None, Some("T-1"), "x", &[]).header(), "fix: T-1: x");
    assert_eq!(group(CommitType::Fix, Some(""), Some(""), "", &[]).header(), "fix(): : ");
    for t in CommitType::all() {
        assert_eq!(group(*t, None, None, "d", &[]).header(), format!("{}: d", t.as_str()));
    }
    assert_eq!(CommitType::all().len(), 10);
    assert_eq!(CommitType::all()[0], CommitType::Feat);
    assert_eq!(CommitType::all()[9], CommitType::Build);
    for (i, t) in CommitType::all().iter().enumerate() {
        assert_eq!(t.position() as usize, i);
    }
}

#[test]
fn header_that_just_fits_is_not_cut() {
    // the prefix "feat: " takes 6 bytes, so 66 are left
    let fits = "d".repeat(66);
    let header = group(CommitType::Feat, None, None, &fits, &[]).header();
    assert_eq!(header.len(), 72);
    assert_eq!(header, format!("feat: {}", fits));
}

#[test]
fn header_that_does_not_fit_is_cut_to_seventy_two_bytes() {
    let long = "d".repeat(67);
    let header = group(CommitType::Feat, None, None, &long, &[]).header();
    assert_eq!(header.len(), 72);
    assert_eq!(header, format!("feat: {}...", "d".repeat(63)));
    assert_eq!(ChangeGroup::MAX_HEADER_LENGTH, 72);
}

#[test]
fn header_with_a_prefix_that_leaves_no_room() {
    // a prefix of 70 bytes leaves 2: the description is cut to nothing
    let scope = "s".repeat(62);
    let g = group(CommitType::Feat, Some(&scope), None, "abc", &[]);
    let prefix = format!("feat({}): ", scope);
    assert_eq!(prefix.len(), 70);
    assert_eq!(g.header(), format!("{}...", prefix));
    assert_eq!(g.header().len(), 73);
    // a description that fits into the two bytes stays
    let g = group(CommitType::Feat, Some(&scope), None, "ab", &[]);
    assert_eq!(g.header(), format!("{}ab", prefix));
    // a prefix of more than 72 bytes never panics
    let scope = "s".repeat(100);
    let g = group(CommitType::Feat, Some(&scope), Some("T"), "abc", &[]);
    assert_eq!(g.header(), format!("feat({}): T: ...", scope));
    let g = group(CommitType::Feat, Some(&scope), Some("T"), "", &[]);
    assert_eq!(g.header(), format!("feat({}): T: ", scope));
}

#[test]
fn header_is_cut_between_characters() {
    // 6 bytes of prefix; 66 left; the description takes 68 bytes, so 63 may stay
    let description = format!("{}é{}", "d".repeat(62), "d".repeat(4));
    let header = group(CommitType::Feat, None, None, &description, &[]).header();
    // "é" takes the bytes 63 and 64 and does not fit into 63
    assert_eq!(header, format!("feat: {}...", "d".repeat(62)));
    assert!(header.len() <= 72);
    let description = format!("{}é{}", "d".repeat(61), "d".repeat(5));
    let header = group(CommitType::Feat, None, None, &description, &[]).header();
    assert_eq!(header, format!("feat: {}é...", "d".repeat(61)));
    assert_eq!(header.len(), 72);
}

#[test]
fn full_message_has_a_body_block_only_with_body_lines() {
    let g = group(CommitType::Docs, None, None, "d", &[]);
    assert_eq!(g.full_message(), g.header());
    let g = group(CommitType::Docs, None, None, "d", &["a", "", "- b"]);
    assert_eq!(g.full_message(), "docs: d\n\n- a\n- \n- - b\n");
}

#[test]
fn edited_text_without_a_line_keeps_the_description() {
    let mut g = group(CommitType::Feat, None, None, "kept", &["old"]);
    g.set_from_commit_text("");
    assert_eq!(g.description, "kept");
    assert!(g.body_lines.is_empty());
}

#[test]
fn edited_text_is_read_line_by_line() {
    let mut g = group(CommitType::Feat, Some("s"), Some("T-1"), "old", &[]);
    g.set_from_commit_text("  feat(s): T-1: new: thing  \r\n\r\n  - one  \n-two\n - \n\t\n-  three\n");
    // what follows the last colon and space
    assert_eq!(g.description, "thing");
    assert_eq!(g.body_lines, vec!["one", "-two", "-", " three"]);
    assert_eq!(g.commit_type, CommitType::Feat);
    assert_eq!(g.scope, Some("s".to_string()));
    assert_eq!(g.ticket, Some("T-1".to_string()));
    assert!(!g.is_committed());

    g.set_from_commit_text("\nbody");
    assert_eq!(g.description, "");
    assert_eq!(g.body_lines, vec!["body"]);

    g.set_from_commit_text("no prefix at all");
    assert_eq!(g.description, "no prefix at all");
    assert!(g.body_lines.is_empty());

    g.set_from_commit_text("feat:");
    assert_eq!(g.description, "feat:");

    g.set_from_commit_text("feat: ");
    assert_eq!(g.description, "");

    g.set_from_commit_text("  lead: x  ");
    assert_eq!(g.description, "x");

    g.set_from_commit_text("  no colon  ");
    assert_eq!(g.description, "no colon");

    g.set_from_commit_text("a:  b");
    assert_eq!(g.description, "b");
}

#[test]
fn message_round_trips_through_editing() {
    let mut g = group(
        CommitType::Refactor,
        Some("core"),
        Some("AB-12"),
        "split the parser",
        &["move the lexer", "- keep the dash", "  indented", "колонка"],
    );
    let message = g.full_message();
    let description = g.description.clone();
    let body = g.body_lines.clone();
    g.description = "something else".to_string();
    g.body_lines = vec![];
    g.set_from_commit_text(&message);
    assert_eq!(g.description, description);
    assert_eq!(g.body_lines, body);
    assert_eq!(g.full_message(), message);
}

#[test]
fn edited_bullets_do_not_double_their_dashes() {
    let mut g = group(CommitType::Fix, None, None, "d", &[]);
    g.set_from_commit_text("fix: d\n\n- with dash\nwithout dash\n");
    assert_eq!(g.body_lines, vec!["with dash", "without dash"]);
    assert_eq!(g.full_message(), "fix: d\n\n- with dash\n- without dash\n");
    assert!(!g.full_message().contains("- -"));
}

#[test]
fn a_description_with_a_colon_and_a_space_does_not_round_trip() {
    let mut g = group(CommitType::Fix, None, None, "parser: handle tabs", &[]);
    let message = g.full_message();
    g.set_from_commit_text(&message);
    assert_eq!(g.description, "handle tabs");
}

#[test]
fn marking_as_committed_changes_nothing_else() {
    let mut g = group(CommitType::Fix, Some("s"), Some("t"), "d", &["b"]);
    assert!(!g.is_committed());
    g.mark_as_committed();
    assert!(g.is_committed());
    g.mark_as_committed();
    assert!(g.is_committed());
    assert_eq!(g.full_message(), "fix(s): t: d\n\n- b\n");
}

#[test]
fn status_flags() {
    let all = [
        INDEX_NEW,
        INDEX_MODIFIED,
        INDEX_DELETED,
        INDEX_RENAMED,
        INDEX_TYPECHANGE,
        WT_NEW,
        WT_MODIFIED,
        WT_DELETED,
        WT_TYPECHANGE,
        WT_RENAMED,
    ];
    assert_eq!(all, [1, 2, 4, 8, 16, 128, 256, 512, 1024, 2048]);
    for flag in all {
        let f = ChangedFile::new("p".to_string(), flag);
        assert_eq!(f.is_new(), flag == INDEX_NEW);
        assert_eq!(f.is_modified(), flag == INDEX_MODIFIED);
        assert_eq!(f.is_deleted(), flag == INDEX_DELETED);
        assert_eq!(f.is_renamed(), flag == INDEX_RENAMED);
    }
    let both = ChangedFile::new("p".to_string(), INDEX_RENAMED | INDEX_MODIFIED | WT_MODIFIED);
    assert!(both.is_renamed() && both.is_modified() && !both.is_new() && !both.is_deleted());
    let copy = both.duplicate();
    assert_eq!(copy.path, "p");
    assert_eq!(copy.status, both.status);
    assert!(!ChangedFile::new("p".to_string(), 0).is_new());
}

fn with_files(paths: &[&str]) -> ChangeGroup {
    ChangeGroup::new(
        CommitType::Feat,
        None,
        paths.iter().map(|p| ChangedFile::new(p.to_string(), INDEX_MODIFIED)).collect(),
        None,
        "d".to_string(),
        vec![],
    )
}

#[test]
fn duplicate_check_lists_every_repeat_with_its_group() {
    let groups = vec![with_files(&["a", "b", "a"]), with_files(&[]), with_files(&["c", "b", "a"])];
    let failure = validate_no_duplicate_files(&groups).unwrap_err();
    let found: Vec<(String, usize)> =
        failure.duplicates.iter().map(|d| (d.path.clone(), d.group_index)).collect();
    assert_eq!(
        found,
        vec![("a".to_string(), 0), ("b".to_string(), 2), ("a".to_string(), 2)]
    );
    assert_eq!(
        failure.message(),
        "Duplicate files detected in commit groups:\n  - File 'a' appears in multiple groups (at least in group 0)\n  - File 'b' appears in multiple groups (at least in group 2)\n  - File 'a' appears in multiple groups (at least in group 2)"
    );
}

#[test]
fn duplicate_check_succeeds_exactly_without_repeats() {
    assert!(validate_no_duplicate_files(&[]).is_ok());
    assert!(validate_no_duplicate_files(&[with_files(&[]), with_files(&[])]).is_ok());
    assert!(validate_no_duplicate_files(&[with_files(&["a", "b"]), with_files(&["c"])]).is_ok());
    assert!(validate_no_duplicate_files(&[with_files(&["a", "b"]), with_files(&["b"])]).is_err());
    assert!(validate_no_duplicate_files(&[with_files(&["a", "a"])]).is_err());
    assert!(validate_no_duplicate_files(&[with_files(&["a", "A", "a "])]).is_ok());
}

#[test]
fn duplicate_failure_renders_large_group_numbers() {
    let failure = DuplicateFiles {
        duplicates: vec![DuplicateFile { path: "x y".to_string(), group_index: 120 }],
    };
    assert_eq!(
        failure.message(),
        "Duplicate files detected in commit groups:\n  - File 'x y' appears in multiple groups (at least in group 120)"
    );
}

#[test]
fn an_empty_description_round_trips() {
    let mut g = group(CommitType::Feat, None, None, "", &[]);
    let text = g.full_message();
    assert_eq!(text, "feat: ");
    g.description = "other".to_string();
    g.set_from_commit_text(&text);
    assert_eq!(g.description, "");
    assert!(g.body_lines.is_empty());

    let mut g = group(CommitType::Fix, Some("s"), Some("T-1"), "", &["body"]);
    let text = g.full_message();
    assert_eq!(text, "fix(s): T-1: \n\n- body\n");
    g.description = "other".to_string();
    g.set_from_commit_text(&text);
    assert_eq!(g.description, "");
    assert_eq!(g.body_lines, vec!["body"]);
}

#[test]
fn freely_edited_body_lines_are_read_as_what_they_say() {
    let mut g = group(CommitType::Fix, None, None, "d", &[]);
    g.set_from_commit_text("fix: d\n\n  - note  \n\tnote\n   \n- other\n\u{a0}- last\u{2003}\n\n");
    assert_eq!(g.body_lines, vec!["note", "note", "other", "last"]);
    let message = g.full_message();
    assert_eq!(message, "fix: d\n\n- note\n- note\n- other\n- last\n");
    assert!(!message.contains("- - "));
    assert!(g.body_lines.iter().all(|line| !line.starts_with("- ")));
}
