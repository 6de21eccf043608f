//! Regular expressions supplied by the user, with their shared length limit.

use crate::text;
use vstd::prelude::*;
use vstd::utf8::*;

verus! {

/// Maximum length of a single user regex pattern (bytes).
pub const MAX_USER_REGEX_PATTERN_LEN: usize = 1024;

/// A compiled expression of `regex`.
#[verifier::external_type_specification]
#[verifier::external_body]
pub struct ExRegex(regex::Regex);

/// Whether `regex::Regex::new` accepts `pattern`.
pub uninterp spec fn pattern_compiles(pattern: Seq<char>) -> bool;

/// What the error of `regex::Regex::new` says of a `pattern` that it does not accept.
pub uninterp spec fn pattern_error(pattern: Seq<char>) -> Seq<char>;

/// Whether `regex::Regex::is_match` finds the expression compiled from `pattern` in `text`.
pub uninterp spec fn pattern_matches(pattern: Seq<char>, text: Seq<char>) -> bool;

/// The stretches of `text` that `regex::Regex::find_iter` yields for the expression compiled from
/// `pattern`: the byte offset of the start of each, and that of its end.
pub uninterp spec fn pattern_spans(pattern: Seq<char>, text: Seq<char>) -> Seq<(usize, usize)>;

/// The stretches of `text` that `pattern` matches, as positions of characters.
pub open spec fn pattern_stretches(pattern: Seq<char>, text: Seq<char>) -> Seq<(usize, usize)> {
    in_chars(text, pattern_spans(pattern, text))
}

/// Byte offsets in a text as positions of characters.
pub open spec fn in_chars(text: Seq<char>, spans: Seq<(usize, usize)>) -> Seq<(usize, usize)> {
    Seq::new(
        spans.len(),
        |i: int|
            (
                text::chars_before(text, spans[i].0 as int) as usize,
                text::chars_before(text, spans[i].1 as int) as usize,
            ),
    )
}

/// Whether stretches of something `len` long follow one another without overlapping.
pub open spec fn spans_in_order(spans: Seq<(usize, usize)>, len: nat) -> bool {
    &&& forall|i: int| 0 <= i < spans.len() ==> (#[trigger] spans[i]).0 <= spans[i].1 <= len
    &&& forall|i: int, j: int|
        0 <= i < j < spans.len() ==> (#[trigger] spans[i]).1 <= (#[trigger] spans[j]).0
}

/// `regex::Regex::clone` hands out another handle to the same expression; nothing else is stated
/// of it.
pub assume_specification[ <regex::Regex as Clone>::clone ](re: &regex::Regex) -> regex::Regex
;

/// A compiled expression together with the pattern it was compiled from.
///
/// The fields are private and only [`Pattern::compile`] and `clone` make one, so `compiled` is
/// always the expression that `source` spells.
pub struct Pattern {
    source: String,
    compiled: regex::Regex,
}

impl View for Pattern {
    type V = Seq<char>;

    closed spec fn view(&self) -> Seq<char> {
        self.source@
    }
}

impl Pattern {
    /// Whether the expression occurs in `text`.
    pub open spec fn accepts(&self, text: Seq<char>) -> bool {
        pattern_matches(self@, text)
    }

    /// `regex::Regex::new` compiles a pattern, or says what is wrong with it.
    #[verifier::external_body]
    pub(crate) fn compile(pattern: &str) -> (compiled: Result<Pattern, String>)
        ensures
            compiled is Ok == pattern_compiles(pattern@),
            compiled matches Ok(p) ==> p@ == pattern@,
            compiled matches Err(reason) ==> reason@ == pattern_error(pattern@),
    {
        match regex::Regex::new(pattern) {
            Ok(compiled) => Ok(Pattern { source: pattern.to_owned(), compiled }),
            Err(e) => Err(e.to_string()),
        }
    }

    /// `regex::Regex::is_match` looks for the expression in a text.
    #[verifier::external_body]
    pub(crate) fn is_match(&self, text: &str) -> (found: bool)
        ensures
            found == pattern_matches(self@, text@),
    {
        self.compiled.is_match(text)
    }

    /// `regex::Regex::find_iter` yields the successive stretches of a text that match, none of which
    /// overlaps another; it yields one if the expression occurs at all. `start` and `end` are byte
    /// offsets.
    #[verifier::external_body]
    fn find_spans(&self, text: &str) -> (spans: Vec<(usize, usize)>)
        ensures
            spans@ == pattern_spans(self@, text@),
            spans_in_order(spans@, encode_utf8(text@).len()),
            spans@.len() > 0 <==> pattern_matches(self@, text@),
    {
        self.compiled.find_iter(text).map(|m| (m.start(), m.end())).collect()
    }

    /// The stretches of a text that match, as positions of characters.
    pub fn find_stretches(&self, text: &str) -> (stretches: Vec<(usize, usize)>)
        ensures
            stretches@ == pattern_stretches(self@, text@),
            spans_in_order(stretches@, text@.len()),
            stretches@.len() > 0 <==> self.accepts(text@),
    {
        let spans = self.find_spans(text);
        to_positions(text, &spans)
    }

    /// The pattern that was compiled.
    pub fn as_str(&self) -> (source: &str)
        ensures
            source@ == self@,
    {
        self.source.as_str()
    }
}

/// Goes on through a text up to a byte offset. `at` characters, which take `bytes` bytes, are behind
/// already.
fn go_on(chars: &Vec<char>, at: usize, bytes: u128, offset: usize) -> (reached: (usize, u128))
    requires
        at <= chars@.len(),
        bytes == encode_utf8(chars@.take(at as int)).len(),
        at == 0 || encode_utf8(chars@.take(at - 1)).len() < offset,
    ensures
        reached.0 == text::chars_before(chars@, offset as int),
        reached.0 <= chars@.len(),
        reached.1 == encode_utf8(chars@.take(reached.0 as int)).len(),
        reached.0 == 0 || encode_utf8(chars@.take(reached.0 - 1)).len() < offset,
{
    let mut at = at;
    let mut bytes = bytes;
    while at < chars.len() && bytes < offset as u128
        invariant
            at <= chars@.len(),
            bytes == encode_utf8(chars@.take(at as int)).len(),
            at == 0 || encode_utf8(chars@.take(at - 1)).len() < offset,
        decreases chars@.len() - at,
    {
        proof {
            lemma_encoded_push(chars@.take(at as int), chars@[at as int]);
            assert(chars@.take(at as int).push(chars@[at as int]) =~= chars@.take(at + 1));
        }
        bytes = bytes + text::utf8_width(chars[at]);
        at += 1;
    }
    proof {
        text::lemma_chars_before_from(chars@, at as int, offset as int);
        assert(text::chars_before(chars@.skip(at as int), offset - bytes) == 0);
    }
    (at, bytes)
}

proof fn lemma_encoded_push(text: Seq<char>, c: char)
    ensures
        encode_utf8(text.push(c)).len() == encode_utf8(text).len() + encode_scalar(c as u32).len(),
    decreases text.len(),
{
    if text.len() == 0 {
        assert(text.push(c).drop_first() =~= text);
        assert(text.push(c)[0] == c);
    } else {
        assert(text.push(c).drop_first() =~= text.drop_first().push(c));
        assert(text.push(c)[0] == text[0]);
        lemma_encoded_push(text.drop_first(), c);
    }
}

/// Turns byte offsets in a text into positions of characters.
pub fn to_positions(text: &str, spans: &Vec<(usize, usize)>) -> (positions: Vec<(usize, usize)>)
    requires
        spans_in_order(spans@, encode_utf8(text@).len()),
    ensures
        positions@ == in_chars(text@, spans@),
        spans_in_order(positions@, text@.len()),
{
    let chars = text::to_chars(text);
    let mut positions: Vec<(usize, usize)> = Vec::new();
    let mut at: usize = 0;
    let mut bytes: u128 = 0;
    let mut i: usize = 0;
    assert(chars@.take(0) =~= Seq::empty());
    while i < spans.len()
        invariant
            i <= spans@.len(),
            chars@ == text@,
            spans_in_order(spans@, encode_utf8(text@).len()),
            positions@ == in_chars(text@, spans@).take(i as int),
            at <= chars@.len(),
            bytes == encode_utf8(chars@.take(at as int)).len(),
            at == 0 || i > 0 && encode_utf8(chars@.take(at - 1)).len() < spans@[i - 1].1,
        decreases spans@.len() - i,
    {
        let (start, end) = spans[i];
        assert(spans@[i as int] == (start, end));
        let first = go_on(&chars, at, bytes, start);
        let second = go_on(&chars, first.0, first.1, end);
        positions.push((first.0, second.0));
        at = second.0;
        bytes = second.1;
        assert(in_chars(text@, spans@).take(i + 1) =~= in_chars(text@, spans@).take(i as int).push(
            in_chars(text@, spans@)[i as int],
        ));
        i += 1;
    }
    proof {
        let out = in_chars(text@, spans@);
        assert(out.take(i as int) =~= out);
        assert(chars.len() == text@.len());
        assert forall|k: int| 0 <= k < out.len() implies (#[trigger] out[k]).0 <= out[k].1
            <= text@.len() by {
            text::lemma_chars_before_grows(text@, spans@[k].0 as int, spans@[k].1 as int);
        }
        assert forall|k: int, j: int| 0 <= k < j < out.len() implies (#[trigger] out[k]).1 <= (
        #[trigger] out[j]).0 by {
            assert(spans@[k].1 <= spans@[j].0);
            text::lemma_chars_before_grows(text@, spans@[k].1 as int, spans@[j].0 as int);
        }
    }
    positions
}

impl Clone for Pattern {
    fn clone(&self) -> (copy: Self)
        ensures
            copy@ == self@,
    {
        Pattern { source: self.source.clone(), compiled: self.compiled.clone() }
    }
}

/// Whether some pattern of the list occurs in `text`.
pub open spec fn any_accepts(patterns: Seq<Pattern>, text: Seq<char>) -> bool {
    exists|i: int| 0 <= i < patterns.len() && (#[trigger] patterns[i]).accepts(text)
}

/// Whether some pattern of the list occurs in `text`.
pub fn any_match(patterns: &Vec<Pattern>, text: &str) -> (found: bool)
    ensures
        found == any_accepts(patterns@, text@),
{
    let mut i: usize = 0;
    while i < patterns.len()
        invariant
            i <= patterns.len(),
            forall|j: int| 0 <= j < i ==> !(#[trigger] patterns@[j]).accepts(text@),
        decreases patterns.len() - i,
    {
        if patterns[i].is_match(text) {
            assert(patterns@[i as int].accepts(text@));
            return true;
        }
        i += 1;
    }
    false
}

/// What is said of a pattern that is too long.
pub open spec fn too_long_message(label: Seq<char>) -> Seq<char> {
    label + ": pattern exceeds "@ + text::decimal(MAX_USER_REGEX_PATTERN_LEN as nat)
        + " characters"@
}

/// What is said of a pattern that does not compile for `reason`.
pub open spec fn invalid_message(label: Seq<char>, reason: Seq<char>) -> Seq<char> {
    "invalid "@ + label + " regex: "@ + reason
}

/// Whether `pattern` keeps the length limit, which counts bytes.
pub open spec fn within_limit(pattern: Seq<char>) -> bool {
    encode_utf8(pattern).len() <= MAX_USER_REGEX_PATTERN_LEN
}

/// Puts the label in front of what the compiler said of a pattern.
pub fn label_user_regex(label: &str, compiled: Result<Pattern, String>) -> (labelled: Result<
    Pattern,
    String,
>)
    ensures
        match compiled {
            Ok(p) => labelled == Ok::<Pattern, String>(p),
            Err(reason) => labelled matches Err(e) && e@ == invalid_message(label@, reason@),
        },
{
    match compiled {
        Ok(p) => Ok(p),
        Err(reason) => Err(
            "invalid ".to_owned().concat(label).concat(" regex: ").concat(reason.as_str()),
        ),
    }
}

/// Compile a user regex after enforcing [`MAX_USER_REGEX_PATTERN_LEN`].
pub fn compile_user_regex(label: &str, pattern: &str) -> (compiled: Result<Pattern, String>)
    ensures
        compiled is Ok <==> within_limit(pattern@) && pattern_compiles(pattern@),
        compiled matches Ok(p) ==> p@ == pattern@,
        compiled matches Err(e) ==> e@ == if within_limit(pattern@) {
            invalid_message(label@, pattern_error(pattern@))
        } else {
            too_long_message(label@)
        },
{
    if pattern.as_bytes().len() > MAX_USER_REGEX_PATTERN_LEN {
        return Err(
            label.to_owned().concat(": pattern exceeds ").concat(
                text::to_decimal(MAX_USER_REGEX_PATTERN_LEN as u64).as_str(),
            ).concat(" characters"),
        );
    }
    label_user_regex(label, Pattern::compile(pattern))
}

/// What is said of the first pattern of a list that does not compile, if there is one.
pub open spec fn first_error(patterns: Seq<Seq<char>>) -> Option<Seq<char>>
    decreases patterns.len(),
{
    if patterns.len() == 0 {
        None
    } else if !pattern_compiles(patterns[0]) {
        Some(pattern_error(patterns[0]))
    } else {
        first_error(patterns.skip(1))
    }
}

/// The patterns that a list was compiled from.
pub open spec fn sources(list: Seq<Pattern>) -> Seq<Seq<char>> {
    list.map_values(|p: Pattern| p@)
}

/// Compiles every pattern of a list, or says what is wrong with the first that does not compile.
pub fn compile_all(patterns: &Vec<String>) -> (compiled: Result<Vec<Pattern>, String>)
    ensures
        match compiled {
            Ok(list) => first_error(text::texts(patterns@)) is None && sources(list@)
                == text::texts(patterns@),
            Err(reason) => first_error(text::texts(patterns@)) == Some(reason@),
        },
{
    let mut list: Vec<Pattern> = Vec::new();
    let ghost all = text::texts(patterns@);
    let mut i: usize = 0;
    assert(all.skip(0) =~= all);
    assert(sources(list@) =~= all.take(0));
    while i < patterns.len()
        invariant
            i <= patterns@.len(),
            all == text::texts(patterns@),
            first_error(all) == first_error(all.skip(i as int)),
            sources(list@) == all.take(i as int),
        decreases patterns@.len() - i,
    {
        assert(all.skip(i as int)[0] == patterns@[i as int]@);
        match Pattern::compile(patterns[i].as_str()) {
            Ok(p) => {
                let ghost earlier = list@;
                list.push(p);
                assert(sources(list@) =~= sources(earlier).push(p@));
                assert(all.take(i + 1) =~= all.take(i as int).push(all[i as int]));
                assert(all.skip(i as int).skip(1) =~= all.skip(i + 1));
            },
            Err(reason) => {
                return Err(reason);
            },
        }
        i += 1;
    }
    assert(all.take(i as int) =~= all);
    Ok(list)
}

/// A list accepts a text exactly if a pattern at some position of it does: neither the order nor how
/// often a pattern stands in it matters, and a longer list accepts no less.
pub proof fn law_any_pattern_is_enough(before: Seq<Pattern>, pattern: Pattern, after: Seq<Pattern>, text: Seq<char>)
    ensures
        any_accepts(before.push(pattern) + after, text) <==> any_accepts(before, text)
            || pattern_matches(pattern@, text) || any_accepts(after, text),
        !any_accepts(Seq::<Pattern>::empty(), text),
{
    let all = before.push(pattern) + after;
    let n: int = before.len() as int;
    if any_accepts(all, text) {
        let i = choose|i: int| 0 <= i < all.len() && (#[trigger] all[i]).accepts(text);
        if i < n {
            assert(before[i] == all[i]);
        } else if i > n {
            assert(after[i - n - 1] == all[i]);
        }
    }
    if any_accepts(before, text) {
        let i = choose|i: int| 0 <= i < before.len() && (#[trigger] before[i]).accepts(text);
        assert(all[i] == before[i]);
    }
    if any_accepts(after, text) {
        let i = choose|i: int| 0 <= i < after.len() && (#[trigger] after[i]).accepts(text);
        assert(all[n + 1 + i] == after[i]);
    }
    if pattern.accepts(text) {
        assert(all[n] == pattern);
    }
}

/// What is said of a list is what is said of the first pattern that does not compile; a list of
/// patterns that all compile has no error.
pub proof fn law_first_error_counts(patterns: Seq<Seq<char>>)
    ensures
        (forall|i: int| 0 <= i < patterns.len() ==> pattern_compiles(#[trigger] patterns[i]))
            ==> first_error(patterns) is None,
        forall|i: int|
            {
                &&& 0 <= i < patterns.len()
                &&& !pattern_compiles(#[trigger] patterns[i])
                &&& forall|j: int| 0 <= j < i ==> pattern_compiles(#[trigger] patterns[j])
            } ==> first_error(patterns) == Some(pattern_error(patterns[i])),
    decreases patterns.len(),
{
    if patterns.len() > 0 {
        let rest = patterns.skip(1);
        law_first_error_counts(rest);
        if forall|i: int| 0 <= i < patterns.len() ==> pattern_compiles(#[trigger] patterns[i]) {
            assert(pattern_compiles(patterns[0]));
            assert forall|i: int| 0 <= i < rest.len() implies pattern_compiles(#[trigger] rest[i]) by {
                assert(rest[i] == patterns[i + 1]);
            }
        }
        assert forall|i: int|
            {
                &&& 0 <= i < patterns.len()
                &&& !pattern_compiles(#[trigger] patterns[i])
                &&& forall|j: int| 0 <= j < i ==> pattern_compiles(#[trigger] patterns[j])
            } implies first_error(patterns) == Some(pattern_error(patterns[i])) by {
            if i > 0 {
                assert(pattern_compiles(patterns[0]));
                assert(rest[i - 1] == patterns[i]);
                assert forall|j: int| 0 <= j < i - 1 implies pattern_compiles(#[trigger] rest[j]) by {
                    assert(rest[j] == patterns[j + 1]);
                }
            }
        }
    }
}

/// A pattern keeps the limit exactly if it takes no more than 1024 bytes, so one of ASCII characters
/// if it has no more than 1024 of them.
pub proof fn law_length_limit(pattern: Seq<char>)
    ensures
        within_limit(pattern) <==> encode_utf8(pattern).len() <= 1024,
{
}

/// A stretch that begins and ends with whole characters keeps its place: it is told by how many
/// characters stand before its start and before its end.
pub proof fn law_stretch_by_characters(text: Seq<char>, spans: Seq<(usize, usize)>, i: int, a: int, b: int)
    requires
        0 <= i < spans.len(),
        0 <= a <= b <= text.len() <= usize::MAX,
        encode_utf8(text.take(a)).len() == spans[i].0,
        encode_utf8(text.take(b)).len() == spans[i].1,
    ensures
        in_chars(text, spans).len() == spans.len(),
        in_chars(text, spans)[i].0 == a,
        in_chars(text, spans)[i].1 == b,
{
    text::law_offset_finds_character(text, a);
    text::law_offset_finds_character(text, b);
}

/// What is said of a pattern names what it was given for, and the limit or the reason.
pub proof fn law_what_is_said_of_a_pattern(label: Seq<char>, reason: Seq<char>)
    ensures
        invalid_message(label, reason) == "invalid "@ + label + " regex: "@ + reason,
        label.is_prefix_of(too_long_message(label)),
        too_long_message(label) == label + ": pattern exceeds "@ + seq!['1', '0', '2', '4']
            + " characters"@,
{
    reveal_with_fuel(text::decimal, 5);
    assert(text::decimal(1024) =~= seq!['1', '0', '2', '4']);
    assert(too_long_message(label).take(label.len() as int) =~= label);
}

/// A pattern accepts a text exactly if the expression that it was compiled from is found in it, and a
/// list is told by what each was compiled from, in their order.
pub proof fn law_patterns_one_by_one(list: Seq<Pattern>, i: int, text: Seq<char>)
    requires
        0 <= i < list.len(),
    ensures
        sources(list).len() == list.len(),
        sources(list)[i] == list[i]@,
        list[i].accepts(text) <==> pattern_matches(list[i]@, text),
{
}

} // verus!
