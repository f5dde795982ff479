//! Tests for the reading of an assistant's answers, for the prompts and for
//! the choice of the service.

use commit_wizard::ai::{
    build_prompt, is_usable, select_provider, AiError, Provider, API_TIMEOUT_SECS,
    MAX_ANSWER_TOKENS, SYSTEM_MESSAGE,
};
use commit_wizard::copilot::{
    build_commit_message_prompt, build_fallback_prompt, build_grouping_prompt,
    check_copilot_auth_error, cli_failure_message, extract_response_between_markers,
    fallback_single_group, groups_from_specs, groups_or_fallback, parse_commit_message,
    parse_groups_from_response, read_group_specs, CopilotError, GroupSpec, END_MARKER,
    START_MARKER,
};
use commit_wizard::types::{
    ChangeGroup, ChangedFile, CommitType, INDEX_DELETED, INDEX_MODIFIED, INDEX_NEW, INDEX_RENAMED,
};

fn file(path: &str, status: u32) -> ChangedFile {
    ChangedFile::new(path.to_string(), status)
}

fn some(s: &str) -> Option<String> {
    Some(s.to_string())
}

#[test]
fn groups_are_read_off_a_json_answer() {
    let files = vec![
        file("src/a.rs", INDEX_NEW),
        file("src/b.rs", INDEX_MODIFIED),
        file("README.md", INDEX_MODIFIED),
    ];
    let response = r#"[
        {"type": "fix", "scope": "core", "description": "mend a", "files": ["src/b.rs", "src/a.rs", 7, "missing.rs"], "body_lines": ["- with dash", "without", null, "- "]},
        {"type": "docs", "files": ["nothing.md"]},
        {"files": ["README.md"], "scope": 3}
    ]"#;
    let groups = parse_groups_from_response(response, &files, &some("T-9")).unwrap().unwrap();
    assert_eq!(groups.len(), 2);
    assert_eq!(groups[0].commit_type, CommitType::Fix);
    assert_eq!(groups[0].scope, some("core"));
    assert_eq!(groups[0].description, "mend a");
    // the files keep the order of the working set
    let paths: Vec<&str> = groups[0].files.iter().map(|f| f.path.as_str()).collect();
    assert_eq!(paths, vec!["src/a.rs", "src/b.rs"]);
    assert!(groups[0].files[0].is_new());
    assert_eq!(groups[0].body_lines, vec!["with dash", "without", ""]);
    assert_eq!(groups[0].ticket, some("T-9"));
    assert!(!groups[0].is_committed());
    // without type and description
    assert_eq!(groups[1].commit_type, CommitType::Feat);
    assert_eq!(groups[1].scope, None);
    assert_eq!(groups[1].description, "update files");
    assert!(groups[1].body_lines.is_empty());
    assert_eq!(groups[1].files.len(), 1);
}

#[test]
fn an_answer_that_is_no_json_array_asks_for_the_fallback() {
    let files = vec![file("a", INDEX_NEW)];
    for response in ["", "not json", "{\"type\": \"fix\"}", "[1, 2", "[]", "[{\"files\": [\"b\"]}]"] {
        let r = parse_groups_from_response(response, &files, &None).unwrap();
        assert!(r.is_none(), "{:?}", response);
    }
    assert!(read_group_specs("nope").is_none());
    assert_eq!(read_group_specs("[]").unwrap().len(), 0);
    let specs = read_group_specs("[1, \"x\", {\"type\": \"ci\"}]").unwrap();
    assert_eq!(specs.len(), 3);
    assert_eq!(specs[0].type_tag, None);
    assert!(specs[0].files.is_empty());
    assert_eq!(specs[2].type_tag, some("ci"));
}

#[test]
fn an_answer_that_names_a_file_twice_fails() {
    let files = vec![file("a", INDEX_NEW), file("b", INDEX_NEW)];
    let response = r#"[{"files": ["a", "b"]}, {"files": ["b"]}]"#;
    let failure = parse_groups_from_response(response, &files, &None).unwrap_err();
    assert!(matches!(failure, CopilotError::Duplicates(_)));
    assert_eq!(
        failure.message(),
        "Duplicate files detected in commit groups:\n  - File 'b' appears in multiple groups (at least in group 1)"
    );
    assert!(groups_or_fallback(None, &files, &None).unwrap().is_none());
}

#[test]
fn groups_from_specs_takes_specs_as_they_are() {
    let files = vec![file("a", INDEX_NEW), file("b", INDEX_DELETED), file("a", INDEX_RENAMED)];
    let specs = vec![
        GroupSpec {
            type_tag: some("nonsense"),
            scope: some(""),
            description: some(""),
            files: vec!["a".to_string(), "a".to_string()],
            body_lines: vec!["- - x".to_string()],
        },
        GroupSpec {
            type_tag: some("perf"),
            scope: None,
            description: None,
            files: vec![],
            body_lines: vec![],
        },
    ];
    let groups = groups_from_specs(&specs, &files, &None);
    assert_eq!(groups.len(), 1);
    assert_eq!(groups[0].commit_type, CommitType::Feat);
    assert_eq!(groups[0].scope, some(""));
    assert_eq!(groups[0].description, "");
    assert_eq!(groups[0].files.len(), 2);
    assert!(groups[0].files[1].is_renamed());
    assert_eq!(groups[0].body_lines, vec!["- x"]);
    assert_eq!(groups[0].ticket, None);
}

#[test]
fn the_fallback_is_a_single_group_of_all_files() {
    let files = vec![file("src/a.rs", INDEX_NEW), file("docs/b.md", INDEX_MODIFIED)];
    let groups =
        fallback_single_group(files.clone(), some("T-1"), some("tidy the sources\nsecond line"));
    assert_eq!(groups.len(), 1);
    assert_eq!(groups[0].commit_type, CommitType::Feat);
    assert_eq!(groups[0].scope, some("src"));
    assert_eq!(groups[0].description, "tidy the sources");
    assert_eq!(groups[0].files.len(), 2);
    assert_eq!(groups[0].ticket, some("T-1"));
    assert_eq!(groups[0].body_lines, vec!["add src/a.rs", "modify docs/b.md"]);

    // without an answer, or with an empty one, the description is inferred
    for answer in [None, some("")] {
        let groups = fallback_single_group(files.clone(), None, answer);
        assert_eq!(groups[0].description, "add src");
    }
    // without files
    let groups = fallback_single_group(vec![], None, some("ignored"));
    assert_eq!(groups[0].description, "update files");
    assert_eq!(groups[0].commit_type, CommitType::Feat);
    assert_eq!(groups[0].scope, None);
    assert!(groups[0].files.is_empty());
    assert!(groups[0].body_lines.is_empty());
}

#[test]
fn fallback_prompt_is_exact() {
    let files = vec![file("tests/a.rs", INDEX_NEW), file("b", INDEX_NEW), file("c", INDEX_NEW)];
    assert_eq!(
        build_fallback_prompt(&files),
        "Generate a short commit description (max 50 chars) for:\nType: test\nFiles: tests/a.rs, b, c\n\nRespond with:\n**START COMMIT MESSAGE**\n<your description here>\n**END COMMIT MESSAGE**\n"
    );
    assert_eq!(
        build_fallback_prompt(&vec![]),
        "Generate a short commit description (max 50 chars) for:\nType: feat\nFiles: \n\nRespond with:\n**START COMMIT MESSAGE**\n<your description here>\n**END COMMIT MESSAGE**\n"
    );
}

#[test]
fn markers() {
    assert_eq!(START_MARKER, "**START COMMIT MESSAGE**");
    assert_eq!(END_MARKER, "**END COMMIT MESSAGE**");
    let failure = extract_response_between_markers("nothing here").unwrap_err();
    assert!(matches!(failure, CopilotError::MissingResponse));
    assert_eq!(
        failure.message(),
        "Could not find text between markers '**START COMMIT MESSAGE**' and '**END COMMIT MESSAGE**' in Copilot CLI output"
    );
    // an end marker before the start marker ends the reading
    let output = format!("{}\n{}\ntext\n{}\n", END_MARKER, START_MARKER, END_MARKER);
    assert!(extract_response_between_markers(&output).is_err());
    // a second start marker is no text; lines keep their white space but lose a carriage return
    let output = format!("{}\r\n a \r\n{}\n\t\nb\n{}\nc", START_MARKER, START_MARKER, END_MARKER);
    assert_eq!(extract_response_between_markers(&output).unwrap(), " a \nb");
}

#[test]
fn copilot_answers_lose_their_fence_and_their_double_dashes() {
    let (d, b) = parse_commit_message("  ```\n\"`add x`\"\n\n a -- b --- c ----\n```  ").unwrap();
    assert_eq!(d, "add x");
    assert_eq!(b, Some("a - b -- c --".to_string()));
    let (d, b) = parse_commit_message("``````").unwrap();
    assert_eq!(d, "");
    assert_eq!(b, None);
    let (d, b) = parse_commit_message("a\n\n\nb").unwrap();
    assert_eq!(d, "a");
    assert_eq!(b, Some("b".to_string()));
}

#[test]
fn failed_runs_are_reported_with_what_they_wrote() {
    assert_eq!(cli_failure_message("bad", "out"), "GitHub Copilot CLI failed: bad");
    assert_eq!(cli_failure_message("", "out"), "GitHub Copilot CLI failed: out");
    assert_eq!(cli_failure_message("", ""), "GitHub Copilot CLI failed: ");
    assert!(!check_copilot_auth_error("x Error: No authentication information found. y", true));
    assert!(check_copilot_auth_error("Error: No authentication information found", true));
}

#[test]
fn grouping_prompt_is_exact() {
    let files = vec![
        file("a", INDEX_NEW),
        file("b", INDEX_MODIFIED),
        file("c", INDEX_DELETED),
        file("d", INDEX_RENAMED),
        file("e", 0),
    ];
    let long = "x".repeat(1001);
    let diffs: Vec<(String, String)> = vec![
        ("a".to_string(), "short".to_string()),
        ("b".to_string(), long.clone()),
        ("c".to_string(), "x".repeat(1000)),
        ("d".to_string(), String::new()),
        ("e".to_string(), "five".to_string()),
        ("f".to_string(), "never shown".to_string()),
    ];
    let prompt = build_grouping_prompt(&files, Some("T-7"), &diffs);
    let expected = format!(
        "Analyze these changed files and group them into logical commits.\n\nREQUIREMENTS:\n- Group files that belong to the same logical change\n- Also analyze the dependencies between the changed files and ensure that these are completely fulfilled per commit group.\n- Be sure to include all related files in the same group\n- Be sure that a file is only in one group\n- Assign appropriate conventional commit type (feat, fix, docs, style, refactor, perf, test, chore, ci, build)\n- Determine scope from file paths (e.g., 'api', 'ui', 'auth')\n- Generate concise, imperative descriptions\n- Keep descriptions under 72 characters\n\nTicket/Issue: T-7\n\nCHANGED FILES:\n  new - a\n  modified - b\n  deleted - c\n  renamed - d\n  changed - e\n\nDIFF PREVIEW:\n\na:\nshort\nb:\n{}... (truncated)\nc:\n{}\nd:\n\ne:\nfive\n\nProvide the grouping in JSON format between these markers:\n**START COMMIT MESSAGE**\n[\n  {{\n    \"type\": \"feat\",\n    \"scope\": \"api\",\n    \"description\": \"add user endpoint\",\n    \"files\": [\"src/api/users.rs\"],\n    \"body_lines\": [\"implement GET /users\", \"add user model\"]\n    # NOTE: body_lines should NOT start with '- ', it will be added automatically\n  }}\n]\n**END COMMIT MESSAGE**\n",
        "x".repeat(1000),
        "x".repeat(1000)
    );
    assert_eq!(prompt, expected);
    let without = build_grouping_prompt(&[], None, &vec![]);
    assert!(without.contains("characters\n\nCHANGED FILES:\n\n\nProvide the grouping"));
}

#[test]
fn message_prompt_is_exact() {
    let files = vec![file("a", INDEX_NEW), file("b", INDEX_NEW)];
    let mut group = ChangeGroup::new(
        CommitType::Ci,
        Some("pipe".to_string()),
        vec![],
        Some("T-2".to_string()),
        "d".to_string(),
        vec![],
    );
    let diff = "y".repeat(1002);
    let prompt = build_commit_message_prompt(&group, &files, Some(&diff));
    let expected = format!(
        "Generate a conventional commit message for these changes.\n\nTicket number: T-2\n\nREQUIREMENTS:\n- Use imperative mood: 'add feature' NOT 'added feature'\n- Keep description concise and factual\n- Do NOT include type/scope prefix (feat:, fix:, etc.)\n- Start with a lowercase verb\n- No period at the end of description\n- Keep subject line under 72 characters\n- If providing a body, provide plain text lines WITHOUT bullet point prefix\n- The tool will automatically add '- ' prefix to each body line\n- Mention breaking changes if applicable\n\nType: ci\nScope: pipe\n\nCHANGED FILES:\n  - a\n  - b\n\nDIFF:\n{}\n... (truncated)\n\nGenerate ONLY the commit message between these markers:\n**START COMMIT MESSAGE**\n<description>\n\n<optional body with bullet points>\n**END COMMIT MESSAGE**\n",
        "y".repeat(1000)
    );
    assert_eq!(prompt, expected);
    group.ticket = None;
    group.scope = None;
    let prompt = build_commit_message_prompt(&group, &[], Some("tiny"));
    assert!(prompt.starts_with("Generate a conventional commit message for these changes.\n\nREQUIREMENTS:\n"));
    assert!(prompt.contains("applicable\n\nType: ci\n\nCHANGED FILES:\n\nDIFF:\ntiny\n\nGenerate ONLY"));
}

#[test]
fn service_prompt_is_exact() {
    let files = vec![file("a", INDEX_NEW)];
    let group = ChangeGroup::new(
        CommitType::Perf,
        Some("db".to_string()),
        vec![],
        Some("T-3".to_string()),
        "d".to_string(),
        vec![],
    );
    assert_eq!(
        build_prompt(&group, &files, Some("+x")),
        "Generate a conventional commit message for these changes:\n\nType: perf\nScope: db\nTicket: T-3\n\nChanged files:\n  - a\n\nDiff (first 1000 chars):\n+x\n\nProvide ONLY the commit description (imperative mood, no type/scope prefix). If needed, add a body after a blank line."
    );
    // a diff is cut between characters, never inside one
    let diff = format!("{}é", "z".repeat(999));
    let prompt = build_prompt(&group, &files, Some(&diff));
    assert!(prompt.contains(&format!("\n{}\n... (truncated)\n\nProvide", "z".repeat(999))));
}

#[test]
fn the_service_is_chosen_by_the_first_usable_token() {
    let c = select_provider(some("gh"), some("other"), some("oa"), None, some("m")).unwrap();
    assert_eq!(c.provider, Provider::GitHubModels);
    assert_eq!(c.token, "gh");
    assert_eq!(c.api_url, "https://models.github.com/chat/completions");
    assert_eq!(c.model, "gpt-4");

    let c = select_provider(some("  "), some("fallback"), None, some("custom"), None).unwrap();
    assert_eq!(c.provider, Provider::GitHubModels);
    assert_eq!(c.token, "fallback");
    assert_eq!(c.model, "custom");

    let c = select_provider(None, some(""), some("oa"), some("custom"), None).unwrap();
    assert_eq!(c.provider, Provider::OpenAi);
    assert_eq!(c.token, "oa");
    assert_eq!(c.api_url, "https://api.openai.com/v1/chat/completions");
    assert_eq!(c.model, "gpt-4.1-2025-04-14");

    let c = select_provider(None, None, some(" oa "), None, some("o1")).unwrap();
    assert_eq!(c.token, " oa ");
    assert_eq!(c.model, "o1");

    for (a, b, c) in [(None, None, None), (some(""), some("\t"), some(" \n"))] {
        let failure = select_provider(a, b, c, None, None).unwrap_err();
        assert_eq!(failure, AiError::NoToken);
        assert!(failure.message().starts_with("No API token found. Set one of:\n- GITHUB_TOKEN"));
        assert!(failure.message().ends_with("https://platform.openai.com/api-keys"));
    }
    assert!(is_usable(&some("x")));
    assert!(!is_usable(&some("\u{a0}")));
    assert!(!is_usable(&None));
    assert_eq!(API_TIMEOUT_SECS, 30);
    assert_eq!(MAX_ANSWER_TOKENS, 200);
    assert!(SYSTEM_MESSAGE.starts_with("You are a commit message generator."));
}
