//! Pod `status.conditions` filter.

use crate::discovery::pod::Pod;
use crate::text;
use vstd::prelude::*;

verus! {

/// The condition that a pod must show.
#[derive(Debug, PartialEq, Eq)]
pub struct PodConditionFilter {
    pub condition_type: String,
    pub status: String,
}

impl Clone for PodConditionFilter {
    fn clone(&self) -> (copy: Self)
        ensures
            copy == *self,
    {
        PodConditionFilter {
            condition_type: self.condition_type.clone(),
            status: self.status.clone(),
        }
    }
}

/// Why a condition filter was not understood.
#[derive(Debug, PartialEq, Eq)]
pub enum ParsePodConditionError {
    Empty,
    InvalidValue(String),
}

impl ParsePodConditionError {
    /// What the error says.
    pub open spec fn text(&self) -> Seq<char> {
        match self {
            ParsePodConditionError::Empty => "empty --condition"@,
            ParsePodConditionError::InvalidValue(value) => "invalid condition value `"@ + value@
                + "` (use true, false, or unknown)"@,
        }
    }

    /// What the error says.
    pub fn message(&self) -> (text: String)
        ensures
            text@ == self.text(),
    {
        match self {
            ParsePodConditionError::Empty => "empty --condition".to_owned(),
            ParsePodConditionError::InvalidValue(value) => "invalid condition value `".to_owned().concat(
            value.as_str()).concat("` (use true, false, or unknown)"),
        }
    }
}

/// One entry of a pod's `status.conditions`.
#[derive(Debug)]
pub struct PodCondition {
    pub condition_type: String,
    pub status: String,
}

/// The name and the wanted value that a trimmed condition argument spells.
pub open spec fn condition_sides(arg: Seq<char>) -> (Seq<char>, Seq<char>) {
    match text::cut_once(arg, '=') {
        Some((name, value)) => (text::trimmed(name), text::trimmed(value)),
        None => (arg, "true"@),
    }
}

/// The status word that a value in lower case stands for.
pub open spec fn status_word(lowered: Seq<char>) -> Option<Seq<char>> {
    if lowered == "true"@ {
        Some("True"@)
    } else if lowered == "false"@ {
        Some("False"@)
    } else if lowered == "unknown"@ {
        Some("Unknown"@)
    } else {
        None
    }
}

/// The status word that `value` stands for, whatever its case.
fn normalize_condition_status(value: &str) -> (status: Result<String, ParsePodConditionError>)
    ensures
        match status_word(text::ascii_lowered(value@)) {
            Some(word) => status matches Ok(s) && s@ == word,
            None => status matches Err(ParsePodConditionError::InvalidValue(v)) && v@
                == text::ascii_lowered(value@),
        },
{
    let lowered = text::to_ascii_lowercase(value);
    if text::same(lowered.as_str(), "true") {
        Ok("True".to_owned())
    } else if text::same(lowered.as_str(), "false") {
        Ok("False".to_owned())
    } else if text::same(lowered.as_str(), "unknown") {
        Ok("Unknown".to_owned())
    } else {
        Err(ParsePodConditionError::InvalidValue(lowered))
    }
}

/// Parses `name` or `name=value`; a name alone asks for the value `true`.
pub fn parse_pod_condition(raw: &str) -> (parsed: Result<PodConditionFilter, ParsePodConditionError>)
    ensures
        ({
            let arg = text::trimmed(raw@);
            let (name, value) = condition_sides(arg);
            if arg.len() == 0 || name.len() == 0 {
                parsed == Err::<PodConditionFilter, ParsePodConditionError>(
                    ParsePodConditionError::Empty,
                )
            } else {
                match status_word(text::ascii_lowered(value)) {
                    Some(word) => parsed matches Ok(f) && f.condition_type@ == text::ascii_lowered(name)
                        && f.status@ == word,
                    None => parsed matches Err(ParsePodConditionError::InvalidValue(v)) && v@
                        == text::ascii_lowered(value),
                }
            }
        }),
{
    let arg = text::trim(raw);
    if arg.is_empty() {
        return Err(ParsePodConditionError::Empty);
    }
    let (name, value) = match text::split_once(arg, '=') {
        Some((n, v)) => (text::trim(n), text::trim(v)),
        None => (arg, "true"),
    };
    if name.is_empty() {
        return Err(ParsePodConditionError::Empty);
    }
    match normalize_condition_status(value) {
        Ok(status) => Ok(
            PodConditionFilter { condition_type: text::to_ascii_lowercase(name), status },
        ),
        Err(e) => Err(e),
    }
}

/// Whether two texts differ at most in the case of ASCII letters.
pub open spec fn same_ignoring_case(a: Seq<char>, b: Seq<char>) -> bool {
    text::ascii_lowered(a) == text::ascii_lowered(b)
}

/// Whether a pod that shows no such condition passes: only where `ready` is asked to be false.
pub open spec fn passes_when_missing(filter: PodConditionFilter) -> bool {
    filter.condition_type@ == "ready"@ && same_ignoring_case(filter.status@, "False"@)
}

/// Whether a pod with these conditions passes: the first condition of the wanted type decides.
pub open spec fn conditions_pass(conditions: Seq<PodCondition>, filter: PodConditionFilter) -> bool
    decreases conditions.len(),
{
    if conditions.len() == 0 {
        passes_when_missing(filter)
    } else if same_ignoring_case(conditions[0].condition_type@, filter.condition_type@) {
        same_ignoring_case(conditions[0].status@, filter.status@)
    } else {
        conditions_pass(conditions.skip(1), filter)
    }
}

/// Whether a pod that shows no such condition passes.
fn missing_condition_matches(filter: &PodConditionFilter) -> (passes: bool)
    ensures
        passes == passes_when_missing(*filter),
{
    text::same(filter.condition_type.as_str(), "ready") && text::eq_ignore_ascii_case(
        filter.status.as_str(),
        "False",
    )
}

/// Whether a pod passes the filter; a pod without conditions has none to go by.
pub open spec fn pod_passes(pod: Pod, filter: PodConditionFilter) -> bool {
    match pod.conditions {
        Some(list) => conditions_pass(list@, filter),
        None => passes_when_missing(filter),
    }
}

/// Whether a pod passes the filter.
pub fn pod_matches_condition(pod: &Pod, filter: &PodConditionFilter) -> (passes: bool)
    ensures
        passes == pod_passes(*pod, *filter),
{
    let list = match &pod.conditions {
        Some(list) => list,
        None => {
            return missing_condition_matches(filter);
        },
    };
    let mut i: usize = 0;
    assert(list@.skip(0) == list@);
    while i < list.len()
        invariant
            i <= list.len(),
            pod.conditions == Some(*list),
            conditions_pass(list@, *filter) == conditions_pass(list@.skip(i as int), *filter),
        decreases list.len() - i,
    {
        assert(list@.skip(i as int)[0] == list@[i as int]);
        if text::eq_ignore_ascii_case(list[i].condition_type.as_str(), filter.condition_type.as_str()) {
            return text::eq_ignore_ascii_case(list[i].status.as_str(), filter.status.as_str());
        }
        assert(list@.skip(i as int).skip(1) == list@.skip(i + 1));
        i += 1;
    }
    missing_condition_matches(filter)
}

proof fn lemma_first_of_type_decides(conditions: Seq<PodCondition>, filter: PodConditionFilter, i: int)
    requires
        0 <= i < conditions.len(),
        same_ignoring_case(conditions[i].condition_type@, filter.condition_type@),
        forall|j: int|
            0 <= j < i ==> !same_ignoring_case(
                (#[trigger] conditions[j]).condition_type@,
                filter.condition_type@,
            ),
    ensures
        conditions_pass(conditions, filter) == same_ignoring_case(
            conditions[i].status@,
            filter.status@,
        ),
    decreases i,
{
    if i > 0 {
        let rest = conditions.skip(1);
        assert(!same_ignoring_case(conditions[0].condition_type@, filter.condition_type@));
        assert forall|j: int| 0 <= j < i - 1 implies !same_ignoring_case(
            (#[trigger] rest[j]).condition_type@,
            filter.condition_type@,
        ) by {
            assert(rest[j] == conditions[j + 1]);
        }
        assert(rest[i - 1] == conditions[i]);
        lemma_first_of_type_decides(rest, filter, i - 1);
    }
}

proof fn lemma_no_condition_of_type(conditions: Seq<PodCondition>, filter: PodConditionFilter)
    requires
        forall|j: int|
            0 <= j < conditions.len() ==> !same_ignoring_case(
                (#[trigger] conditions[j]).condition_type@,
                filter.condition_type@,
            ),
    ensures
        conditions_pass(conditions, filter) == passes_when_missing(filter),
    decreases conditions.len(),
{
    if conditions.len() > 0 {
        let rest = conditions.skip(1);
        assert(!same_ignoring_case(conditions[0].condition_type@, filter.condition_type@));
        assert forall|j: int| 0 <= j < rest.len() implies !same_ignoring_case(
            (#[trigger] rest[j]).condition_type@,
            filter.condition_type@,
        ) by {
            assert(rest[j] == conditions[j + 1]);
        }
        lemma_no_condition_of_type(rest, filter);
    }
}

/// The first condition of the wanted type, wherever in the list it stands, decides: the pod passes
/// exactly if its status is the wanted one. Case does not matter for either.
pub proof fn law_condition_decides(
    pod: Pod,
    conditions: Vec<PodCondition>,
    i: int,
    filter: PodConditionFilter,
)
    requires
        pod.conditions == Some(conditions),
        0 <= i < conditions@.len(),
        text::ascii_lowered(conditions@[i].condition_type@) == text::ascii_lowered(
            filter.condition_type@,
        ),
        forall|j: int|
            0 <= j < i ==> text::ascii_lowered((#[trigger] conditions@[j]).condition_type@)
                != text::ascii_lowered(filter.condition_type@),
    ensures
        pod_passes(pod, filter) <==> text::ascii_lowered(conditions@[i].status@)
            == text::ascii_lowered(filter.status@),
{
    assert forall|j: int| 0 <= j < i implies !same_ignoring_case(
        (#[trigger] conditions@[j]).condition_type@,
        filter.condition_type@,
    ) by {}
    lemma_first_of_type_decides(conditions@, filter, i);
}

/// A pod of which no condition has the wanted type, and one without conditions, passes exactly if
/// the filter asks for `ready` to be false.
pub proof fn law_missing_condition(pod: Pod, filter: PodConditionFilter)
    requires
        pod.conditions matches Some(conditions) ==> forall|j: int|
            0 <= j < conditions@.len() ==> text::ascii_lowered(
                (#[trigger] conditions@[j]).condition_type@,
            ) != text::ascii_lowered(filter.condition_type@),
    ensures
        pod_passes(pod, filter) <==> filter.condition_type@ == "ready"@ && text::ascii_lowered(
            filter.status@,
        ) == "false"@,
{
    reveal_strlit("False");
    reveal_strlit("false");
    assert(text::ascii_lowered("False"@) =~= "false"@);
    if let Some(conditions) = pod.conditions {
        assert forall|j: int| 0 <= j < conditions@.len() implies !same_ignoring_case(
            (#[trigger] conditions@[j]).condition_type@,
            filter.condition_type@,
        ) by {}
        lemma_no_condition_of_type(conditions@, filter);
    }
}

/// The status words are `true`, `false` and `unknown`, whatever their case, and a filter holds the
/// word as it was asked for: with the first letter as a capital.
pub proof fn law_status_words(value: Seq<char>)
    ensures
        match status_word(text::ascii_lowered(value)) {
            Some(word) => {
                &&& text::ascii_lowered(word) == text::ascii_lowered(value)
                &&& word == "True"@ || word == "False"@ || word == "Unknown"@
            },
            None => {
                &&& text::ascii_lowered(value) != "true"@
                &&& text::ascii_lowered(value) != "false"@
                &&& text::ascii_lowered(value) != "unknown"@
            },
        },
{
    reveal_strlit("True");
    reveal_strlit("False");
    reveal_strlit("Unknown");
    reveal_strlit("true");
    reveal_strlit("false");
    reveal_strlit("unknown");
    assert(text::ascii_lowered("True"@) =~= "true"@);
    assert(text::ascii_lowered("False"@) =~= "false"@);
    assert(text::ascii_lowered("Unknown"@) =~= "unknown"@);
}

/// An argument with an equals sign is cut at the first one, and both sides are trimmed; one without
/// asks for the value `true`.
pub proof fn law_condition_argument(name: Seq<char>, value: Seq<char>)
    requires
        !name.contains('='),
    ensures
        condition_sides(name.push('=') + value) == (text::trimmed(name), text::trimmed(value)),
        condition_sides(name) == (name, "true"@),
{
    text::law_cut_undoes_putting_together(name, '=', value);
    text::law_cut_at_first_mark(name, '=');
}

/// What an error says names the value that was not understood, and the values that are.
pub proof fn law_what_condition_errors_say(value: String)
    ensures
        ParsePodConditionError::Empty.text() == "empty --condition"@,
        ParsePodConditionError::InvalidValue(value).text() == "invalid condition value `"@ + value@
            + "` (use true, false, or unknown)"@,
{
}

} // verus!
