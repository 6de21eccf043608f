//! Which lines are shown, by their message.

use crate::regex_limits;
use crate::regex_limits::Pattern;
use crate::source::{LogEvent, LogSourceError};
use vstd::prelude::*;

verus! {

/// Which form of a line the message filters look at.
#[derive(Debug, Clone, Copy, PartialEq, Eq, Structural)]
pub enum FilterOn {
    Transformed,
    Original,
}

/// Whether a line with this message is shown. Where there are include patterns, they alone decide;
/// exclude patterns count only without them.
pub open spec fn shows_message(message: Seq<char>, includes: Seq<Pattern>, excludes: Seq<Pattern>) -> bool {
    if includes.len() > 0 {
        regex_limits::any_accepts(includes, message)
    } else {
        !regex_limits::any_accepts(excludes, message)
    }
}

/// Keeps the lines whose message is to be shown.
pub fn include_exclude(
    item: Result<LogEvent, LogSourceError>,
    includes: &Vec<Pattern>,
    excludes: &Vec<Pattern>,
) -> (kept: Option<Result<LogEvent, LogSourceError>>)
    ensures
        match item {
            Ok(ev) => kept == if shows_message(ev.message@, includes@, excludes@) {
                Some(item)
            } else {
                None
            },
            Err(_) => kept == Some(item),
        },
{
    match &item {
        Ok(ev) => {
            let message: &str = &ev.message;
            if includes.len() > 0 {
                if !regex_limits::any_match(includes, message) {
                    return None;
                }
            } else if regex_limits::any_match(excludes, message) {
                return None;
            }
        },
        Err(_) => {},
    }
    Some(item)
}

/// A line that an include pattern matches is shown, whatever the exclude patterns say.
pub proof fn law_include_beats_exclude(message: Seq<char>, includes: Seq<Pattern>, excludes: Seq<Pattern>)
    requires
        regex_limits::any_accepts(includes, message),
    ensures
        shows_message(message, includes, excludes),
{
}

/// Without patterns every line is shown.
pub proof fn law_no_patterns_show_all(message: Seq<char>)
    ensures
        shows_message(message, Seq::empty(), Seq::empty()),
{
}

/// Without include patterns a line is hidden exactly if an exclude pattern at some position matches
/// its message.
pub proof fn law_any_exclude_hides(message: Seq<char>, excludes: Seq<Pattern>)
    ensures
        !shows_message(message, Seq::empty(), excludes) <==> exists|i: int|
            0 <= i < excludes.len() && regex_limits::pattern_matches(
                (#[trigger] excludes[i])@,
                message,
            ),
{
    if !shows_message(message, Seq::empty(), excludes) {
        let i = choose|i: int| 0 <= i < excludes.len() && (#[trigger] excludes[i]).accepts(message);
        assert(regex_limits::pattern_matches(excludes[i]@, message));
    }
    if exists|i: int|
        0 <= i < excludes.len() && regex_limits::pattern_matches((#[trigger] excludes[i])@, message) {
        let i = choose|i: int|
            0 <= i < excludes.len() && regex_limits::pattern_matches(
                (#[trigger] excludes[i])@,
                message,
            );
        assert(excludes[i].accepts(message));
    }
}

/// With include patterns a line is shown exactly if one of them, at some position, matches its
/// message; what the exclude patterns are does not matter.
pub proof fn law_some_include_shows(message: Seq<char>, includes: Seq<Pattern>, excludes: Seq<Pattern>)
    requires
        includes.len() > 0,
    ensures
        shows_message(message, includes, excludes) <==> exists|i: int|
            0 <= i < includes.len() && regex_limits::pattern_matches(
                (#[trigger] includes[i])@,
                message,
            ),
{
    if shows_message(message, includes, excludes) {
        let i = choose|i: int| 0 <= i < includes.len() && (#[trigger] includes[i]).accepts(message);
        assert(regex_limits::pattern_matches(includes[i]@, message));
    }
    if exists|i: int|
        0 <= i < includes.len() && regex_limits::pattern_matches((#[trigger] includes[i])@, message) {
        let i = choose|i: int|
            0 <= i < includes.len() && regex_limits::pattern_matches(
                (#[trigger] includes[i])@,
                message,
            );
        assert(includes[i].accepts(message));
    }
}

} // verus!
