//! The lines that go to the log.

use crate::text::{append, append_str, chars_of, decimal, decimal_of, string_of, string_views};
use vstd::prelude::*;

verus! {

/// Severity of a log record, from the most to the least severe.
#[derive(Debug, Clone, Copy, PartialEq, Eq, Structural)]
pub enum Level {
    /// Errors
    Error,
    /// Warnings
    Warn,
    /// Information
    Info,
    /// Details for debugging
    Debug,
}

impl Level {
    /// Position of the level, the most severe first.
    pub open spec fn rank(self) -> nat {
        match self {
            Level::Error => 1,
            Level::Warn => 2,
            Level::Info => 3,
            Level::Debug => 4,
        }
    }

    /// The name of the level as it stands in a log line.
    pub open spec fn name(self) -> Seq<char> {
        match self {
            Level::Error => "ERROR"@,
            Level::Warn => "WARN"@,
            Level::Info => "INFO"@,
            Level::Debug => "DEBUG"@,
        }
    }

    fn position(self) -> (r: u8)
        ensures
            r == self.rank(),
    {
        match self {
            Level::Error => 1,
            Level::Warn => 2,
            Level::Info => 3,
            Level::Debug => 4,
        }
    }

    fn label(self) -> (r: &'static str)
        ensures
            r@ == self.name(),
    {
        match self {
            Level::Error => "ERROR",
            Level::Warn => "WARN",
            Level::Info => "INFO",
            Level::Debug => "DEBUG",
        }
    }
}

/// The most detailed level that is written: debugging details when
/// `verbose`, information otherwise.
pub fn level_for(verbose: bool) -> (r: Level)
    ensures
        r == (if verbose {
            Level::Debug
        } else {
            Level::Info
        }),
{
    if verbose {
        Level::Debug
    } else {
        Level::Info
    }
}

/// Tells whether a record of level `record` is written when `limit` is the
/// most detailed level that is: it is at least as severe.
pub fn is_enabled(record: Level, limit: Level) -> (b: bool)
    ensures
        b == (record.rank() <= limit.rank()),
{
    record.position() <= limit.position()
}

/// One line of the log: the time in brackets, the level, the target in
/// brackets, the message, and a line feed.
pub open spec fn log_line_text(
    timestamp: Seq<char>,
    level: Level,
    target: Seq<char>,
    message: Seq<char>,
) -> Seq<char> {
    "["@ + timestamp + "] "@ + level.name() + " ["@ + target + "] "@ + message + "\n"@
}

/// Renders one line of the log.
pub fn log_line(timestamp: &str, level: Level, target: &str, message: &str) -> (r: String)
    ensures
        r@ == log_line_text(timestamp@, level, target@, message@),
{
    let mut out: Vec<char> = chars_of("[");
    append_str(&mut out, timestamp);
    append_str(&mut out, "] ");
    append_str(&mut out, level.label());
    append_str(&mut out, " [");
    append_str(&mut out, target);
    append_str(&mut out, "] ");
    append_str(&mut out, message);
    append_str(&mut out, "\n");
    string_of(&out)
}

/// The message that reports a request to a service.
pub open spec fn api_request_text(provider: Seq<char>, model: Seq<char>, prompt_length: nat) -> Seq<
    char,
> {
    "API Request: provider="@ + provider + ", model="@ + model + ", prompt_length="@ + decimal(
        prompt_length,
    )
}

/// Renders the message that reports a request to a service.
pub fn api_request_message(provider: &str, model: &str, prompt_length: usize) -> (r: String)
    ensures
        r@ == api_request_text(provider@, model@, prompt_length as nat),
{
    let mut out: Vec<char> = chars_of("API Request: provider=");
    append_str(&mut out, provider);
    append_str(&mut out, ", model=");
    append_str(&mut out, model);
    append_str(&mut out, ", prompt_length=");
    let digits: Vec<char> = decimal_of(prompt_length);
    append(&mut out, &digits);
    string_of(&out)
}

/// The message that reports the answer of a service: with the length of
/// the answer (zero where it is not known) on success.
pub open spec fn api_response_text(
    provider: Seq<char>,
    success: bool,
    response_length: Option<usize>,
) -> Seq<char> {
    if success {
        "API Response: provider="@ + provider + ", success=true, response_length="@ + decimal(
            match response_length {
                Some(n) => n as nat,
                None => 0,
            },
        )
    } else {
        "API Response: provider="@ + provider + ", success=false"@
    }
}

/// Renders the message that reports the answer of a service, with the level
/// it is logged at: information on success, an error otherwise.
pub fn api_response_message(provider: &str, success: bool, response_length: Option<usize>) -> (r: (
    Level,
    String,
))
    ensures
        r.0 == (if success {
            Level::Info
        } else {
            Level::Error
        }),
        r.1@ == api_response_text(provider@, success, response_length),
{
    let mut out: Vec<char> = chars_of("API Response: provider=");
    append_str(&mut out, provider);
    if success {
        append_str(&mut out, ", success=true, response_length=");
        let length: usize = match response_length {
            Some(n) => n,
            None => 0,
        };
        let digits: Vec<char> = decimal_of(length);
        append(&mut out, &digits);
        (Level::Info, string_of(&out))
    } else {
        append_str(&mut out, ", success=false");
        (Level::Error, string_of(&out))
    }
}

/// A truth value in words.
pub open spec fn truth_word(b: bool) -> Seq<char> {
    if b {
        "true"@
    } else {
        "false"@
    }
}

/// The message that reports the result of grouping.
pub open spec fn grouping_result_text(files_count: nat, groups_count: nat, ai_used: bool) -> Seq<
    char,
> {
    "Grouping: files="@ + decimal(files_count) + ", groups="@ + decimal(groups_count)
        + ", ai_used="@ + truth_word(ai_used)
}

/// Renders the message that reports the result of grouping.
pub fn grouping_result_message(files_count: usize, groups_count: usize, ai_used: bool) -> (r: String)
    ensures
        r@ == grouping_result_text(files_count as nat, groups_count as nat, ai_used),
{
    let mut out: Vec<char> = chars_of("Grouping: files=");
    let files: Vec<char> = decimal_of(files_count);
    append(&mut out, &files);
    append_str(&mut out, ", groups=");
    let groups: Vec<char> = decimal_of(groups_count);
    append(&mut out, &groups);
    append_str(&mut out, ", ai_used=");
    append_str(&mut out, if ai_used {
        "true"
    } else {
        "false"
    });
    string_of(&out)
}

/// The line that reports the cause with number `index` of an error.
pub open spec fn cause_text(index: nat, cause: Seq<char>) -> Seq<char> {
    "  Caused by ("@ + decimal(index) + "): "@ + cause
}

/// The lines that report an error with its chain of causes: the context
/// and the error itself, then one line for each cause, numbered from one.
/// `chain` holds the error first and then its causes; without an error the
/// first line holds the context alone.
pub open spec fn error_texts(context: Seq<char>, chain: Seq<Seq<char>>) -> Seq<Seq<char>> {
    Seq::new(
        if chain.len() == 0 {
            1
        } else {
            chain.len()
        },
        |i: int|
            if i == 0 {
                context + ": "@ + (if chain.len() == 0 {
                    Seq::empty()
                } else {
                    chain[0]
                })
            } else {
                cause_text(i as nat, chain[i])
            },
    )
}

/// Renders the lines that report an error with its chain of causes.
pub fn error_messages(context: &str, chain: &Vec<String>) -> (r: Vec<String>)
    ensures
        string_views(r@) == error_texts(context@, string_views(chain@)),
{
    let mut lines: Vec<String> = Vec::new();
    let mut first: Vec<char> = chars_of(context);
    append_str(&mut first, ": ");
    if chain.len() > 0 {
        append_str(&mut first, chain[0].as_str());
    } else {
        assert(first@ == context@ + ": "@ + Seq::<char>::empty());
    }
    lines.push(string_of(&first));
    let mut i: usize = 1;
    while i < chain.len()
        invariant
            1 <= i,
            chain.len() > 0 ==> i <= chain.len(),
            lines@.len() == (if chain.len() == 0 {
                1
            } else {
                i as int
            }),
            forall|k: int|
                0 <= k < lines@.len() ==> (#[trigger] lines@[k])@ == error_texts(
                    context@,
                    string_views(chain@),
                )[k],
        decreases chain.len() - i,
    {
        let mut line: Vec<char> = chars_of("  Caused by (");
        let digits: Vec<char> = decimal_of(i);
        append(&mut line, &digits);
        append_str(&mut line, "): ");
        append_str(&mut line, chain[i].as_str());
        lines.push(string_of(&line));
        i += 1;
    }
    assert(string_views(lines@) =~= error_texts(context@, string_views(chain@)));
    lines
}

} // verus!
