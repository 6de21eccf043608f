//! Which containers' lines are shown.

use crate::regex_limits;
use crate::regex_limits::Pattern;
use crate::source::{LogEvent, LogSourceError};
use vstd::prelude::*;

verus! {

/// Whether a container of that name is shown.
pub open spec fn shows_container(name: Seq<char>, included: Pattern, excluded: Seq<Pattern>) -> bool {
    included.accepts(name) && !regex_limits::any_accepts(excluded, name)
}

/// Keeps the lines of containers that match `included` and no pattern of `excluded`.
pub fn container_filter(
    item: Result<LogEvent, LogSourceError>,
    included: &Pattern,
    excluded: &Vec<Pattern>,
) -> (kept: Option<Result<LogEvent, LogSourceError>>)
    ensures
        match item {
            Ok(ev) => kept == if shows_container(ev.source.container@, *included, excluded@) {
                Some(item)
            } else {
                None
            },
            Err(_) => kept == Some(item),
        },
{
    match &item {
        Ok(ev) => {
            let name = ev.source.container.as_str();
            if !included.is_match(name) {
                return None;
            }
            if regex_limits::any_match(excluded, name) {
                return None;
            }
        },
        Err(_) => {},
    }
    Some(item)
}

/// A container is shown exactly if the one pattern matches its name and no excluded pattern, at any
/// position, does.
pub proof fn law_any_excluded_pattern_hides(name: Seq<char>, included: Pattern, excluded: Seq<Pattern>)
    ensures
        shows_container(name, included, excluded) <==> regex_limits::pattern_matches(included@, name)
            && forall|i: int|
            0 <= i < excluded.len() ==> !regex_limits::pattern_matches(
                (#[trigger] excluded[i])@,
                name,
            ),
{
    if regex_limits::any_accepts(excluded, name) {
        let i = choose|i: int| 0 <= i < excluded.len() && (#[trigger] excluded[i]).accepts(name);
        assert(regex_limits::pattern_matches(excluded[i]@, name));
    }
    if exists|i: int|
        0 <= i < excluded.len() && regex_limits::pattern_matches((#[trigger] excluded[i])@, name) {
        let i = choose|i: int|
            0 <= i < excluded.len() && regex_limits::pattern_matches((#[trigger] excluded[i])@, name);
        assert(excluded[i].accepts(name));
    }
}

} // verus!
