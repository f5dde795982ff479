//! Commit message generation through a chat-completion service: the choice
//! of the service, the prompt, and the reading of the answer.

use crate::copilot::{description_in, unquoted};
use crate::text::{
    append, append_str, chars_of, find, first_match, matches_at, slice_of, string_of, trim,
    trimmed,
};
use crate::types::{opt_view, ChangeGroup, ChangedFile};
use vstd::prelude::*;

verus! {

/// Address of the GitHub Models service for chat completions.
pub const GITHUB_MODELS_API_URL: &'static str = "https://models.github.com/chat/completions";

/// Address of the OpenAI service for chat completions.
pub const OPENAI_API_URL: &'static str = "https://api.openai.com/v1/chat/completions";

/// Model asked of GitHub Models where none is configured.
pub const DEFAULT_GITHUB_MODEL: &'static str = "gpt-4";

/// Model asked of OpenAI where none is configured.
pub const DEFAULT_OPENAI_MODEL: &'static str = "gpt-4.1-2025-04-14";

/// Seconds after which a request is given up.
pub const API_TIMEOUT_SECS: u64 = 30;

/// Upper bound on the tokens of an answer.
pub const MAX_ANSWER_TOKENS: u32 = 200;

/// The services that can write a commit message.
#[derive(Debug, Clone, Copy, PartialEq, Eq, Structural)]
pub enum Provider {
    /// GitHub Models
    GitHubModels,
    /// OpenAI
    OpenAi,
}

/// The service to ask, with what it takes to ask it.
#[derive(Debug, Clone)]
pub struct ProviderChoice {
    /// The service
    pub provider: Provider,
    /// The token that authorises the request
    pub token: String,
    /// The address to send the request to
    pub api_url: String,
    /// The model to ask for
    pub model: String,
}

/// The failures of commit message generation that are decided here.
#[derive(Debug, Clone, Copy, PartialEq, Eq, Structural)]
pub enum AiError {
    /// Neither a GitHub token nor an OpenAI key is set
    NoToken,
}

impl AiError {
    /// The text of this failure.
    pub open spec fn message_spec(&self) -> Seq<char> {
        "No API token found. Set one of:\n- GITHUB_TOKEN or GH_TOKEN (for GitHub Models API)\n- OPENAI_API_KEY (for OpenAI API)\n\nCreate GitHub token at: https://github.com/settings/tokens\nCreate OpenAI key at: https://platform.openai.com/api-keys"@
    }

    /// Renders the failure.
    pub fn message(&self) -> (r: String)
        ensures
            r@ == self.message_spec(),
    {
        let out: Vec<char> = chars_of(
            "No API token found. Set one of:\n- GITHUB_TOKEN or GH_TOKEN (for GitHub Models API)\n- OPENAI_API_KEY (for OpenAI API)\n\nCreate GitHub token at: https://github.com/settings/tokens\nCreate OpenAI key at: https://platform.openai.com/api-keys",
        );
        string_of(&out)
    }
}

/// A configured value counts if it is set and not blank.
pub open spec fn usable(value: Option<Seq<char>>) -> bool {
    value matches Some(v) && trim(v).len() > 0
}

/// The model to ask for: the configured one if any, else the default.
pub open spec fn model_or(configured: Option<Seq<char>>, default: Seq<char>) -> Seq<char> {
    match configured {
        Some(m) => m,
        None => default,
    }
}

/// A choice of service, as plain values.
pub struct ChoiceView {
    /// The service
    pub provider: Provider,
    /// The token that authorises the request
    pub token: Seq<char>,
    /// The address to send the request to
    pub api_url: Seq<char>,
    /// The model to ask for
    pub model: Seq<char>,
}

impl View for ProviderChoice {
    type V = ChoiceView;

    open spec fn view(&self) -> ChoiceView {
        ChoiceView {
            provider: self.provider,
            token: self.token@,
            api_url: self.api_url@,
            model: self.model@,
        }
    }
}

/// The service that these settings select, if any: GitHub Models with the
/// first usable one of the two GitHub tokens; else OpenAI with a usable key.
pub open spec fn chosen(
    github_token: Option<Seq<char>>,
    gh_token: Option<Seq<char>>,
    openai_key: Option<Seq<char>>,
    github_model: Option<Seq<char>>,
    openai_model: Option<Seq<char>>,
) -> Option<ChoiceView> {
    if usable(github_token) || usable(gh_token) {
        Some(
            ChoiceView {
                provider: Provider::GitHubModels,
                token: if usable(github_token) {
                    github_token->0
                } else {
                    gh_token->0
                },
                api_url: GITHUB_MODELS_API_URL@,
                model: model_or(github_model, DEFAULT_GITHUB_MODEL@),
            },
        )
    } else if usable(openai_key) {
        Some(
            ChoiceView {
                provider: Provider::OpenAi,
                token: openai_key->0,
                api_url: OPENAI_API_URL@,
                model: model_or(openai_model, DEFAULT_OPENAI_MODEL@),
            },
        )
    } else {
        None
    }
}

/// Tells whether a configured value is set and not blank.
pub fn is_usable(value: &Option<String>) -> (b: bool)
    ensures
        b == usable(opt_view(*value)),
{
    match value {
        Some(v) => {
            let chars: Vec<char> = chars_of(v.as_str());
            let t: Vec<char> = trimmed(&chars);
            t.len() > 0
        },
        None => false,
    }
}

fn model_for(configured: Option<String>, default: &str) -> (r: String)
    ensures
        r@ == model_or(opt_view(configured), default@),
{
    match configured {
        Some(m) => m,
        None => {
            let d: Vec<char> = chars_of(default);
            string_of(&d)
        },
    }
}

/// Chooses the service from what is configured. The first usable one of
/// `github_token` and `gh_token` selects GitHub Models; else a usable
/// `openai_key` selects OpenAI; else there is no token.
pub fn select_provider(
    github_token: Option<String>,
    gh_token: Option<String>,
    openai_key: Option<String>,
    github_model: Option<String>,
    openai_model: Option<String>,
) -> (r: Result<ProviderChoice, AiError>)
    ensures
        match r {
            Ok(c) => chosen(
                opt_view(github_token),
                opt_view(gh_token),
                opt_view(openai_key),
                opt_view(github_model),
                opt_view(openai_model),
            ) == Some(c@),
            Err(e) => e == AiError::NoToken && chosen(
                opt_view(github_token),
                opt_view(gh_token),
                opt_view(openai_key),
                opt_view(github_model),
                opt_view(openai_model),
            ) is None,
        },
{
    let github: Option<String> = if is_usable(&github_token) {
        github_token
    } else if is_usable(&gh_token) {
        gh_token
    } else {
        None
    };
    match github {
        Some(token) => {
            let url: Vec<char> = chars_of(GITHUB_MODELS_API_URL);
            Ok(
                ProviderChoice {
                    provider: Provider::GitHubModels,
                    token,
                    api_url: string_of(&url),
                    model: model_for(github_model, DEFAULT_GITHUB_MODEL),
                },
            )
        },
        None => {
            if is_usable(&openai_key) {
                let url: Vec<char> = chars_of(OPENAI_API_URL);
                match openai_key {
                    Some(token) => Ok(
                        ProviderChoice {
                            provider: Provider::OpenAi,
                            token,
                            api_url: string_of(&url),
                            model: model_for(openai_model, DEFAULT_OPENAI_MODEL),
                        },
                    ),
                    None => Err(AiError::NoToken),
                }
            } else {
                Err(AiError::NoToken)
            }
        },
    }
}

/// The instructions that go before every request.
pub const SYSTEM_MESSAGE: &'static str =
    "You are a commit message generator. Follow these rules: - Use imperative mood: 'add feature' NOT 'added feature' - Keep description concise and factual - Do NOT include type/scope prefix (feat:, fix:, etc.) - Start with a lowercase verb - No period at the end of description - If providing a body, separate it with a blank line - Body should use bullet points starting with '-' - Mention breaking changes if applicable";

/// Bytes of a diff that a prompt shows at most.
pub const MAX_DIFF_SIZE: usize = 1000;

/// One line of a prompt that holds a label and a value, if there is a value.
pub open spec fn labelled(label: Seq<char>, value: Option<Seq<char>>) -> Seq<char> {
    match value {
        Some(v) => label + v + "\n"@,
        None => Seq::empty(),
    }
}

/// The paths of the first `n` files, each on a line of its own after
/// `bullet`.
pub open spec fn path_lines(files: Seq<ChangedFile>, bullet: Seq<char>, n: int) -> Seq<char>
    decreases n,
{
    if n <= 0 {
        Seq::empty()
    } else {
        path_lines(files, bullet, n - 1) + bullet + files[n - 1].path@ + "\n"@
    }
}

/// What a prompt shows of a diff under `heading`: the heading, the diff cut
/// to `MAX_DIFF_SIZE` bytes, and a remark if something was cut off.
pub open spec fn diff_section(heading: Seq<char>, diff: Option<Seq<char>>) -> Seq<char> {
    match diff {
        Some(d) => heading + crate::text::excerpt(d, MAX_DIFF_SIZE as nat) + (if crate::text::byte_len(
            d,
        ) > MAX_DIFF_SIZE {
            "\n... (truncated)"@
        } else {
            Seq::empty()
        }),
        None => Seq::empty(),
    }
}

/// The prompt that asks for a commit message for a group.
pub open spec fn prompt_text(group: ChangeGroup, files: Seq<ChangedFile>, diff: Option<Seq<char>>) -> Seq<
    char,
> {
    "Generate a conventional commit message for these changes:\n\n"@ + labelled(
        "Type: "@,
        Some(group.commit_type.tag()),
    ) + labelled("Scope: "@, opt_view(group.scope)) + labelled("Ticket: "@, opt_view(group.ticket))
        + "\nChanged files:\n"@ + path_lines(files, "  - "@, files.len() as int) + diff_section(
        "\nDiff (first 1000 chars):\n"@,
        diff,
    )
        + "\n\nProvide ONLY the commit description (imperative mood, no type/scope prefix). If needed, add a body after a blank line."@
}

/// Appends a labelled line to `out` if there is a value.
pub fn append_labelled(out: &mut Vec<char>, label: &str, value: &Option<String>)
    ensures
        final(out)@ == old(out)@ + labelled(label@, opt_view(*value)),
{
    match value {
        Some(v) => {
            append_str(out, label);
            append_str(out, v.as_str());
            append_str(out, "\n");
            assert(out@ == old(out)@ + (label@ + v@ + "\n"@));
        },
        None => {
            assert(out@ == old(out)@ + Seq::<char>::empty());
        },
    }
}

/// Appends the paths of `files` to `out`, each on a line of its own after
/// `bullet`.
pub fn append_path_lines(out: &mut Vec<char>, files: &[ChangedFile], bullet: &str)
    ensures
        final(out)@ == old(out)@ + path_lines(files@, bullet@, files@.len() as int),
{
    let mut i: usize = 0;
    assert(out@ == old(out)@ + Seq::<char>::empty());
    while i < files.len()
        invariant
            i <= files.len(),
            out@ == old(out)@ + path_lines(files@, bullet@, i as int),
        decreases files.len() - i,
    {
        let ghost before = path_lines(files@, bullet@, i as int);
        append_str(out, bullet);
        append_str(out, files[i].path.as_str());
        append_str(out, "\n");
        assert(out@ == old(out)@ + (before + bullet@ + files@[i as int].path@ + "\n"@));
        i += 1;
    }
}

/// Appends what a prompt shows of a diff to `out`.
pub fn append_diff_section(out: &mut Vec<char>, heading: &str, diff: Option<&str>)
    ensures
        final(out)@ == old(out)@ + diff_section(heading@, match diff {
            Some(d) => Some(d@),
            None => None,
        }),
{
    match diff {
        Some(d) => {
            let cut: (Vec<char>, bool) = crate::text::cut_to(d, MAX_DIFF_SIZE);
            append_str(out, heading);
            append(out, &cut.0);
            if cut.1 {
                append_str(out, "\n... (truncated)");
                assert(out@ == old(out)@ + (heading@ + cut.0@ + "\n... (truncated)"@));
            } else {
                assert(out@ == old(out)@ + (heading@ + cut.0@ + Seq::<char>::empty()));
            }
        },
        None => {
            assert(out@ == old(out)@ + Seq::<char>::empty());
        },
    }
}

/// Builds the prompt for the service from the group, its files and an
/// optional diff, of which at most the first 1000 bytes are shown.
pub fn build_prompt(group: &ChangeGroup, files: &[ChangedFile], diff: Option<&str>) -> (r: String)
    ensures
        r@ == prompt_text(*group, files@, match diff {
            Some(d) => Some(d@),
            None => None,
        }),
{
    let mut out: Vec<char> = chars_of(
        "Generate a conventional commit message for these changes:\n\n",
    );
    let tag: Vec<char> = chars_of(group.commit_type.as_str());
    let kind: Option<String> = Some(string_of(&tag));
    append_labelled(&mut out, "Type: ", &kind);
    append_labelled(&mut out, "Scope: ", &group.scope);
    append_labelled(&mut out, "Ticket: ", &group.ticket);
    append_str(&mut out, "\nChanged files:\n");
    append_path_lines(&mut out, files, "  - ");
    append_diff_section(&mut out, "\nDiff (first 1000 chars):\n", diff);
    append_str(
        &mut out,
        "\n\nProvide ONLY the commit description (imperative mood, no type/scope prefix). If needed, add a body after a blank line.",
    );
    string_of(&out)
}

/// The body in what follows the first empty line of an answer: trimmed;
/// none if nothing is left.
pub open spec fn plain_body_after(rest: Seq<char>) -> Option<Seq<char>> {
    let b = trim(rest);
    if b.len() == 0 {
        None
    } else {
        Some(b)
    }
}

/// The description and the body of an answer: the trimmed answer is split
/// at its first empty line.
pub open spec fn answer_parts(response: Seq<char>) -> (Seq<char>, Option<Seq<char>>) {
    let t = trim(response);
    match first_match(t, "\n\n"@) {
        Some(i) => (unquoted(t.subrange(0, i)), plain_body_after(t.subrange(i + 2, t.len() as int))),
        None => (unquoted(t), None),
    }
}

/// Parses the answer of the service into description and optional body.
/// Never fails.
pub fn parse_commit_message(response: &str) -> (r: Result<(String, Option<String>), AiError>)
    ensures
        r matches Ok(parts) && parts.0@ == answer_parts(response@).0 && opt_view(parts.1)
            == answer_parts(response@).1,
{
    let chars: Vec<char> = chars_of(response);
    let t: Vec<char> = trimmed(&chars);
    let sep: Vec<char> = chars_of("\n\n");
    proof {
        reveal_strlit("\n\n");
        assert(sep@.len() == 2);
    }
    match find(&t, &sep) {
        Some(i) => {
            assert(matches_at(t@, sep@, i as int));
            let head: Vec<char> = slice_of(&t, 0, i);
            let description: String = description_in(&head);
            let rest: Vec<char> = slice_of(&t, i + 2, t.len());
            let body_text: Vec<char> = trimmed(&rest);
            let body: Option<String> = if body_text.len() == 0 {
                None
            } else {
                Some(string_of(&body_text))
            };
            Ok((description, body))
        },
        None => {
            let description: String = description_in(&t);
            Ok((description, None))
        },
    }
}

} // verus!
