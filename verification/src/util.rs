//! Reply formatting: the annotation derived from the completion's finish
//! reason, and the full decorated reply text.

use vstd::prelude::*;

use crate::allowances::{spec_allowance_text, Allowance};
use crate::gpt::{GptModel, MessageChoice};
use crate::text::str_eq;

verus! {

/// The user-facing annotation for a completion's finish reason: nothing for
/// a normal stop, an ellipsis when cut off by the token limit, a marker for
/// filtered content, and an explicit unknown marker otherwise — an
/// unrecognized reason is never silently treated as success.
pub open spec fn spec_ending(finish_reason: Seq<char>) -> Seq<char> {
    if finish_reason == "stop"@ {
        ""@
    } else if finish_reason == "length"@ {
        "\u{2026}"@
    } else if finish_reason == "content_filter"@ {
        " \\\u{1f64a}"@
    } else {
        "\u{2047}"@
    }
}

pub fn ending_from_finish_reason(finish_reason: &str) -> (r: &'static str)
    ensures
        r@ == spec_ending(finish_reason@),
{
    if str_eq(finish_reason, "stop") {
        // It was done.
        ""
    } else if str_eq(finish_reason, "length") {
        // It got cut off by the token limit.
        "\u{2026}"
    } else if str_eq(finish_reason, "content_filter") {
        // Omitted content due to content filters.
        " \\\u{1f64a}"
    } else {
        "\u{2047}"
    }
}

/// The short, non-leaking reply for a provider error code: the code is
/// classified into a tiny set of causes, and an unrecognized code reads as
/// an explicit unknown error.
pub open spec fn spec_error_reply(error_type: Seq<char>) -> Seq<char> {
    if error_type == "insufficient_quota"@ {
        "Boop bloop, out of credit."@
    } else if error_type == "server_error"@ {
        "Boop bloop, server error."@
    } else if error_type == "requests"@ {
        "Beep bloop, probably rate-limited."@
    } else {
        "Boop bloop, unknown error"@
    }
}

pub fn error_reply_text(error_type: &str) -> (r: &'static str)
    ensures
        r@ == spec_error_reply(error_type@),
{
    if str_eq(error_type, "insufficient_quota") {
        "Boop bloop, out of credit."
    } else if str_eq(error_type, "server_error") {
        "Boop bloop, server error."
    } else if str_eq(error_type, "requests") {
        "Beep bloop, probably rate-limited."
    } else {
        "Boop bloop, unknown error"
    }
}

/// The decorated reply: emoji, the model's text, the finish-reason
/// annotation, the cost and remaining allowance, and the model's display
/// name when it is not the default.
pub open spec fn spec_chat_reply(
    content: Seq<char>,
    finish_reason: Seq<char>,
    emoji: Seq<char>,
    cost: Allowance,
    allowance: Allowance,
    model: Option<GptModel>,
) -> Seq<char> {
    let base = emoji + " "@ + content + spec_ending(finish_reason) + " (-"@ + spec_allowance_text(
        cost,
    ) + ", "@ + spec_allowance_text(allowance) + ")"@;
    match model {
        Some(m) => base + " ("@ + m.spec_friendly_name() + ")"@,
        None => base,
    }
}

/// Attaches formatting to the message from the model, like
/// `"🤖 Hello. (-0.25 m$, 39.95 m$) (GPT-4)"`.
pub fn format_chat_message(
    response: &MessageChoice,
    emoji: &str,
    cost: Allowance,
    allowance: Allowance,
    model: Option<&GptModel>,
) -> (r: String)
    ensures
        r@ == spec_chat_reply(
            response.message.content@,
            response.finish_reason@,
            emoji@,
            cost,
            allowance,
            match model {
                Some(m) => Some(*m),
                None => None,
            },
        ),
{
    let mut s = emoji.to_owned();
    s.append(" ");
    s.append(response.message.content.as_str());
    s.append(ending_from_finish_reason(response.finish_reason.as_str()));
    s.append(" (-");
    let cost_text = cost.text();
    s.append(cost_text.as_str());
    s.append(", ");
    let allowance_text = allowance.text();
    s.append(allowance_text.as_str());
    s.append(")");
    match model {
        Some(m) => {
            s.append(" (");
            s.append(m.friendly_name());
            s.append(")");
        },
        None => {},
    }
    s
}

} // verus!
