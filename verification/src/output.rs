//! The texts that tell the user how assisted mode stands.

use crate::text::{chars_of, string_of};
use vstd::prelude::*;

verus! {

/// What is said when assisted mode is in use.
pub const AI_ENABLED_TEXT: &'static str =
    "🤖 AI mode enabled - using GitHub Copilot for grouping and messages\n";

/// What is said when assisted mode was switched off by the user.
pub const AI_DISABLED_TEXT: &'static str =
    "🔧 AI mode disabled by --no-ai flag - using heuristic grouping\n";

/// What is said when the assistant cannot be reached.
pub const AI_UNAVAILABLE_TEXT: &'static str =
    "⚠️  GitHub Copilot CLI not available or not authenticated\n   Falling back to heuristic grouping\n\n   To enable AI features:\n   1. Install: npm install -g @github/copilot\n   2. Authenticate: Run 'copilot' and type '/login'\n\n";

/// The status of assisted mode in words: nothing unless `verbose`; else the
/// first that holds of: it is in use, it was switched off, the assistant is
/// not available; nothing if none holds.
pub open spec fn ai_status_text(verbose: bool, use_ai: bool, no_ai: bool, ai_available: bool) -> Seq<
    char,
> {
    if !verbose {
        Seq::empty()
    } else if use_ai {
        AI_ENABLED_TEXT@
    } else if no_ai {
        AI_DISABLED_TEXT@
    } else if !ai_available {
        AI_UNAVAILABLE_TEXT@
    } else {
        Seq::empty()
    }
}

/// Tells the status of assisted mode in words, for printing.
pub fn ai_status_message(verbose: bool, use_ai: bool, no_ai: bool, ai_available: bool) -> (r: String)
    ensures
        r@ == ai_status_text(verbose, use_ai, no_ai, ai_available),
{
    if !verbose {
        String::new()
    } else if use_ai {
        string_of(&chars_of(AI_ENABLED_TEXT))
    } else if no_ai {
        string_of(&chars_of(AI_DISABLED_TEXT))
    } else if !ai_available {
        string_of(&chars_of(AI_UNAVAILABLE_TEXT))
    } else {
        String::new()
    }
}

/// Assisted mode is used when the user did not switch it off and the
/// assistant is available.
pub fn should_use_ai(no_ai: bool, ai_available: bool) -> (use_ai: bool)
    ensures
        use_ai == (!no_ai && ai_available),
{
    !no_ai && ai_available
}

} // verus!
