//! The texts that the formatter derives: span identifiers and messages.

use crate::json::{json_string_content, value_as_str};
use crate::metadata::{Event, Span, Type};
use crate::record::{lookup, FieldModel, ValueModel};
use crate::text::{decimal, decimal_string};
use vstd::prelude::*;
use vstd::string::*;

verus! {

/// The identifier under which a span appears in records.
pub open spec fn span_id_text(id: u64) -> Seq<char> {
    "span-"@ + decimal(id as nat)
}

/// Ensure consistent formatting of the span ids.
pub fn format_span_id(id: u64) -> (r: String)
    ensures
        r@ == span_id_text(id),
{
    let mut out = String::from_str("span-");
    let digits = decimal_string(id);
    out.append(digits.as_str());
    out
}

/// The uppercase equivalent of a text, as `str::to_uppercase` gives it.
pub uninterp spec fn uppercase(text: Seq<char>) -> Seq<char>;

/// Calls `str::to_uppercase`, which returns the uppercase equivalent of the
/// string: a function of the string alone.
#[verifier::external_body]
pub(crate) fn to_uppercase(text: &str) -> (r: String)
    ensures
        r@ == uppercase(text@),
{
    text.to_uppercase()
}

/// A span's name in capitals and the record type, in brackets.
pub open spec fn span_context_text(upper_name: Seq<char>, ty: Type) -> Seq<char> {
    "["@ + upper_name + " - "@ + ty.tag() + "]"@
}

/// Puts a span's name, already in capitals, and the record type in brackets.
pub fn span_context(upper_name: &str, ty: Type) -> (r: String)
    ensures
        r@ == span_context_text(upper_name@, ty),
{
    let mut out = String::from_str("[");
    out.append(upper_name);
    out.append(" - ");
    out.append(ty.as_str());
    out.append("]");
    out
}

/// Ensure consistent formatting of the span context.
///
/// Example: "[AN_INTERESTING_SPAN - START]"
pub fn format_span_context(name: &str, ty: Type) -> (r: String)
    ensures
        r@ == span_context_text(uppercase(name@), ty),
{
    let upper = to_uppercase(name);
    span_context(upper.as_str(), ty)
}

/// What an event says: its `message` field where that is a string, and its
/// target otherwise.
pub open spec fn event_text(fields: Seq<FieldModel>, target: Seq<char>) -> Seq<char> {
    match lookup(fields, "message"@) {
        Some(ValueModel::Json(v)) => match json_string_content(v) {
            Some(s) => s,
            None => target,
        },
        _ => target,
    }
}

/// An event's text, behind the context of the span it happened in, if any.
pub open spec fn prefixed_text(context: Option<Seq<char>>, text: Seq<char>) -> Seq<char> {
    match context {
        Some(c) => c + " "@ + text,
        None => text,
    }
}

/// The message of an event record: the event's text, and before it the
/// current span in brackets unless messages are kept plain.
pub open spec fn event_message_text(
    span_name: Option<Seq<char>>,
    fields: Seq<FieldModel>,
    target: Seq<char>,
    plain_message: bool,
) -> Seq<char> {
    prefixed_text(
        if !plain_message && span_name is Some {
            Some(span_context_text(uppercase(span_name->0), Type::Event))
        } else {
            None
        },
        event_text(fields, target),
    )
}

/// Puts the context of the current span, if any, before an event's text.
pub fn prefix_message(context: Option<&str>, text: &str) -> (r: String)
    ensures
        r@ == prefixed_text(
            match context {
                Some(c) => Some(c@),
                None => None,
            },
            text@,
        ),
{
    match context {
        Some(c) => {
            let mut out = String::from_str(c);
            out.append(" ");
            out.append(text);
            out
        },
        None => String::from_str(text),
    }
}

/// Extracts the text of an event: the "message" field, if it is a string.
/// Falls back to the target, if missing.
pub fn event_plain_text(event: &Event) -> (r: String)
    ensures
        r@ == event_text(event.fields@, event.metadata.target@),
{
    match event.fields.get("message") {
        Some(value) => match value_as_str(value) {
            Some(s) => String::from_str(s),
            None => event.metadata.target.clone(),
        },
        None => event.metadata.target.clone(),
    }
}

/// Ensure consistent formatting of event message.
///
/// Examples:
/// - "[AN_INTERESTING_SPAN - EVENT] My event message" (for an event with a
///   parent span)
/// - "My event message" (for an event without a parent span)
pub fn format_event_message(current_span: Option<&Span>, event: &Event, plain_message: bool) -> (r:
    String)
    ensures
        r@ == event_message_text(
            match current_span {
                Some(span) => Some(span.metadata.name@),
                None => None,
            },
            event.fields@,
            event.metadata.target@,
            plain_message,
        ),
{
    let message = event_plain_text(event);
    if !plain_message {
        if let Some(span) = current_span {
            let context = format_span_context(span.metadata.name.as_str(), Type::Event);
            return prefix_message(Some(context.as_str()), message.as_str());
        }
    }
    message
}

} // verus!
