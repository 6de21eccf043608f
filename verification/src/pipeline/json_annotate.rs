//! Reading messages that are JSON objects.

use crate::source::parsed_json;
use crate::source::parsed_json::{JaqDoc, JsonDoc, ParsedJson};
use crate::source::{LogEvent, LogSourceError};
use crate::text;
use vstd::prelude::*;

verus! {

/// Whether a message may be a JSON object: its first character that is no white space is `{`.
pub open spec fn looks_like_object(message: Seq<char>) -> bool {
    let start = text::trimmed_start(message);
    start.len() > 0 && start[0] == '{'
}

/// What annotating makes of a line: a message that looks like an object and reads as JSON becomes
/// the payload, in the value type that is wanted; every other line stays as it is.
pub open spec fn annotated(ev: LogEvent, use_jaq_val: bool, out: LogEvent) -> bool {
    let message = ev.message@;
    &&& out == (LogEvent { structured: out.structured, ..ev })
    &&& if looks_like_object(message) && use_jaq_val && parsed_json::jaq_parses(message) {
        out.structured matches Some(ParsedJson::Jaq(doc)) && doc.source() == message
            && !doc.by_conversion() && doc.place() == Seq::<Seq<char>>::empty()
    } else if looks_like_object(message) && !use_jaq_val && parsed_json::json_parses(message) {
        out.structured matches Some(ParsedJson::Serde(doc)) && doc@ == message
    } else {
        out.structured == ev.structured
    }
}

fn starts_like_object(message: &str) -> (yes: bool)
    ensures
        yes == looks_like_object(message@),
{
    let start = text::trim_start(message);
    if start.is_empty() {
        return false;
    }
    start.get_char(0) == '{'
}

/// Reads the message of a line as JSON where it looks like an object.
pub fn json_annotate(item: Result<LogEvent, LogSourceError>, use_jaq_val: bool) -> (out: Result<
    LogEvent,
    LogSourceError,
>)
    ensures
        match item {
            Ok(ev) => out matches Ok(after) && annotated(ev, use_jaq_val, after),
            Err(e) => out == Err::<LogEvent, LogSourceError>(e),
        },
{
    match item {
        Ok(ev) => {
            let mut ev = ev;
            if !starts_like_object(&ev.message) {
                return Ok(ev);
            }
            if use_jaq_val {
                match JaqDoc::parse(&ev.message) {
                    Some(doc) => {
                        ev.structured = Some(ParsedJson::Jaq(doc));
                    },
                    None => {},
                }
            } else {
                match JsonDoc::parse(&ev.message) {
                    Some(doc) => {
                        ev.structured = Some(ParsedJson::Serde(doc));
                    },
                    None => {},
                }
            }
            Ok(ev)
        },
        Err(e) => Err(e),
    }
}

/// A message may be an object exactly if its first character that is no white space is an opening
/// brace.
pub proof fn law_object_by_first_character(message: Seq<char>, i: int)
    requires
        0 <= i < message.len(),
        !text::is_white_space(message[i]),
        forall|j: int| 0 <= j < i ==> text::is_white_space(#[trigger] message[j]),
    ensures
        looks_like_object(message) <==> message[i] == '{',
    decreases i,
{
    if i > 0 {
        let rest = message.skip(1);
        assert(text::is_white_space(message[0]));
        assert(rest[i - 1] == message[i]);
        assert forall|j: int| 0 <= j < i - 1 implies text::is_white_space(#[trigger] rest[j]) by {
            assert(rest[j] == message[j + 1]);
        }
        law_object_by_first_character(rest, i - 1);
    }
}

/// Annotating changes the payload of a line and nothing else. The payload of a message that looks
/// like an object and reads as JSON is that message; a message that does not look like one leaves
/// what payload there was.
pub proof fn law_payload_is_the_message(ev: LogEvent, use_jaq_val: bool, out: LogEvent)
    requires
        annotated(ev, use_jaq_val, out),
    ensures
        out.message == ev.message,
        out.source == ev.source,
        out.timestamp == ev.timestamp,
        out.level == ev.level,
        out.palette_index == ev.palette_index,
        out.container_palette_index == ev.container_palette_index,
        !looks_like_object(ev.message@) ==> out.structured == ev.structured,
        looks_like_object(ev.message@) && !use_jaq_val && parsed_json::json_parses(ev.message@) ==> (
        out.structured matches Some(ParsedJson::Serde(doc)) && doc@ == ev.message@),
        looks_like_object(ev.message@) && use_jaq_val && parsed_json::jaq_parses(ev.message@) ==> (
        out.structured matches Some(ParsedJson::Jaq(doc)) && doc.source() == ev.message@
            && doc.place().len() == 0),
        ev.structured is None ==> (out.structured is Some <==> looks_like_object(ev.message@) && (
        if use_jaq_val {
            parsed_json::jaq_parses(ev.message@)
        } else {
            parsed_json::json_parses(ev.message@)
        })),
{
}

} // verus!
