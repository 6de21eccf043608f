//! Reading the level of a line from its payload.

use crate::source::{LogEvent, LogLevel, LogSourceError};
use crate::text;
use vstd::prelude::*;

verus! {

/// Whether two texts differ at most in the case of ASCII letters.
pub open spec fn same_word(a: Seq<char>, b: Seq<char>) -> bool {
    text::ascii_lowered(a) == text::ascii_lowered(b)
}

/// The level that a level word stands for, whatever its case; a word that is not known is kept.
pub open spec fn is_level_of(word: Seq<char>, level: LogLevel) -> bool {
    if same_word(word, "error"@) || same_word(word, "err"@) || same_word(word, "fatal"@) {
        level is Error
    } else if same_word(word, "warn"@) || same_word(word, "warning"@) {
        level is Warn
    } else if same_word(word, "info"@) {
        level is Info
    } else if same_word(word, "debug"@) {
        level is Debug
    } else if same_word(word, "trace"@) {
        level is Trace
    } else {
        level matches LogLevel::Other(s) && s@ == word
    }
}

/// Map a JSON level field to [`LogLevel`].
pub fn classify_str(word: &str) -> (level: LogLevel)
    ensures
        is_level_of(word@, level),
{
    if text::eq_ignore_ascii_case(word, "error") || text::eq_ignore_ascii_case(word, "err")
        || text::eq_ignore_ascii_case(word, "fatal") {
        LogLevel::Error
    } else if text::eq_ignore_ascii_case(word, "warn") || text::eq_ignore_ascii_case(
        word,
        "warning",
    ) {
        LogLevel::Warn
    } else if text::eq_ignore_ascii_case(word, "info") {
        LogLevel::Info
    } else if text::eq_ignore_ascii_case(word, "debug") {
        LogLevel::Debug
    } else if text::eq_ignore_ascii_case(word, "trace") {
        LogLevel::Trace
    } else {
        LogLevel::Other(word.to_owned())
    }
}

/// The level word of a line: the string at the dotted path in its payload.
pub open spec fn level_word(ev: LogEvent, level_key: Option<Seq<char>>) -> Option<Seq<char>> {
    match (level_key, ev.structured) {
        (Some(key), Some(payload)) => payload.found_at(key),
        _ => None,
    }
}

/// What classifying makes of a line: its level is that of its level word, where it has one.
pub open spec fn classified(ev: LogEvent, level_key: Option<Seq<char>>, out: LogEvent) -> bool {
    &&& out == (LogEvent { level: out.level, ..ev })
    &&& match level_word(ev, level_key) {
        Some(word) => out.level matches Some(level) && is_level_of(word, level),
        None => out.level == ev.level,
    }
}

/// Gives a line the level of its level word.
pub fn level_classify(item: Result<LogEvent, LogSourceError>, level_key: Option<&str>) -> (out: Result<
    LogEvent,
    LogSourceError,
>)
    ensures
        match item {
            Ok(ev) => out matches Ok(after) && classified(
                ev,
                match level_key {
                    Some(key) => Some(key@),
                    None => None,
                },
                after,
            ),
            Err(e) => out == Err::<LogEvent, LogSourceError>(e),
        },
{
    match item {
        Ok(ev) => {
            let mut ev = ev;
            let key = match level_key {
                Some(key) => key,
                None => {
                    return Ok(ev);
                },
            };
            let word = match &ev.structured {
                Some(payload) => payload.level_str_at_dot_path(key),
                None => None,
            };
            match word {
                Some(word) => {
                    ev.level = Some(classify_str(word.as_str()));
                },
                None => {},
            }
            Ok(ev)
        },
        Err(e) => Err(e),
    }
}

/// The words for each level, whatever their case: a word is classified as a level exactly if it is
/// one of those, and any other word is kept as it is.
pub proof fn law_level_words(word: Seq<char>, level: LogLevel)
    requires
        is_level_of(word, level),
    ensures
        ({
            let lowered = text::ascii_lowered(word);
            &&& level is Error <==> lowered == "error"@ || lowered == "err"@ || lowered == "fatal"@
            &&& level is Warn <==> lowered == "warn"@ || lowered == "warning"@
            &&& level is Info <==> lowered == "info"@
            &&& level is Debug <==> lowered == "debug"@
            &&& level is Trace <==> lowered == "trace"@
            &&& level matches LogLevel::Other(kept) ==> kept@ == word
        }),
{
    reveal_strlit("trace");
    reveal_strlit("debug");
    reveal_strlit("info");
    reveal_strlit("warn");
    reveal_strlit("warning");
    reveal_strlit("error");
    reveal_strlit("err");
    reveal_strlit("fatal");
    assert(text::ascii_lowered("trace"@) =~= "trace"@);
    assert(text::ascii_lowered("debug"@) =~= "debug"@);
    assert(text::ascii_lowered("info"@) =~= "info"@);
    assert(text::ascii_lowered("warn"@) =~= "warn"@);
    assert(text::ascii_lowered("warning"@) =~= "warning"@);
    assert(text::ascii_lowered("error"@) =~= "error"@);
    assert(text::ascii_lowered("err"@) =~= "err"@);
    assert(text::ascii_lowered("fatal"@) =~= "fatal"@);
    assert("trace"@[0] == 't' && "debug"@[0] == 'd' && "info"@[0] == 'i');
    assert("warn"@[0] == 'w' && "warning"@[0] == 'w' && "error"@[0] == 'e');
    assert("err"@[0] == 'e' && "fatal"@[0] == 'f');
}

/// Classifying changes the level of a line and nothing else, and that only where the payload has a
/// word at the path: then the word alone decides, whatever level the line had.
pub proof fn law_level_comes_from_payload(
    one: LogEvent,
    other: LogEvent,
    key: Option<Seq<char>>,
    out: LogEvent,
    out_other: LogEvent,
)
    requires
        classified(one, key, out),
        classified(other, key, out_other),
    ensures
        out.message == one.message,
        out.source == one.source,
        out.timestamp == one.timestamp,
        out.structured == one.structured,
        out.palette_index == one.palette_index,
        out.container_palette_index == one.container_palette_index,
        key is None || one.structured is None ==> out.level == one.level,
        key matches Some(k) ==> (one.structured matches Some(payload) ==> (payload.found_at(k) is None
            ==> out.level == one.level) && (payload.found_at(k) is Some ==> out.level is Some)),
        key matches Some(k) ==> (one.structured matches Some(payload) ==> (other.structured == Some(
            payload,
        ) && payload.found_at(k) is Some ==> out.level->0.name() == out_other.level->0.name())),
{
}

} // verus!
