//! Emphasis on what the patterns of the user match.

use crate::regex_limits;
use crate::regex_limits::Pattern;
use crate::render::color;
use crate::render::LineFormatter;
use crate::source::LogEvent;
use crate::text;
use vstd::prelude::*;
use vstd::utf8::*;

verus! {

/// Where the last of the stretches ends.
pub open spec fn last_end(spans: Seq<(usize, usize)>) -> int {
    if spans.len() == 0 {
        0
    } else {
        spans.last().1 as int
    }
}

/// The characters of `line` up to the end of the last stretch, with each stretch between `open` and
/// `close`.
pub open spec fn spliced_head(
    line: Seq<char>,
    spans: Seq<(usize, usize)>,
    open: Seq<char>,
    close: Seq<char>,
) -> Seq<char>
    decreases spans.len(),
{
    if spans.len() == 0 {
        Seq::empty()
    } else {
        spliced_head(line, spans.drop_last(), open, close) + line.subrange(
            last_end(spans.drop_last()),
            spans.last().0 as int,
        ) + open + line.subrange(spans.last().0 as int, spans.last().1 as int) + close
    }
}

/// `line` with each stretch between `open` and `close`.
pub open spec fn spliced(
    line: Seq<char>,
    spans: Seq<(usize, usize)>,
    open: Seq<char>,
    close: Seq<char>,
) -> Seq<char> {
    spliced_head(line, spans, open, close) + line.skip(last_end(spans))
}

/// `line` with each stretch emphasized.
pub open spec fn emphasized(line: Seq<char>, spans: Seq<(usize, usize)>) -> Seq<char> {
    spliced(line, spans, color::emphasis_start(), color::emphasis_end())
}

/// Nothing but the marks is put into a line: with empty marks it is the line itself.
pub proof fn law_emphasis_keeps_line(line: Seq<char>, spans: Seq<(usize, usize)>)
    requires
        regex_limits::spans_in_order(spans, line.len()),
    ensures
        spliced(line, spans, Seq::empty(), Seq::empty()) == line,
{
    lemma_head_without_marks(line, spans);
    assert(line.take(last_end(spans)) + line.skip(last_end(spans)) =~= line);
}

proof fn lemma_head_without_marks(line: Seq<char>, spans: Seq<(usize, usize)>)
    requires
        regex_limits::spans_in_order(spans, line.len()),
    ensures
        spliced_head(line, spans, Seq::empty(), Seq::empty()) == line.take(last_end(spans)),
    decreases spans.len(),
{
    if spans.len() > 0 {
        let before = spans.drop_last();
        assert(regex_limits::spans_in_order(before, line.len())) by {
            assert forall|i: int| 0 <= i < before.len() implies (#[trigger] before[i]).0 <= before[i].1
                <= line.len() by {
                assert(before[i] == spans[i]);
            }
            assert forall|i: int, j: int| 0 <= i < j < before.len() implies (#[trigger] before[i]).1
                <= (#[trigger] before[j]).0 by {
                assert(before[i] == spans[i] && before[j] == spans[j]);
            }
        }
        lemma_head_without_marks(line, before);
        if before.len() > 0 {
            assert(before.last() == spans[spans.len() - 2]);
        }
        assert(spans.last() == spans[spans.len() - 1]);
        assert(last_end(before) <= spans.last().0);
        assert(line.take(last_end(before)) + line.subrange(
            last_end(before),
            spans.last().0 as int,
        ) + Seq::<char>::empty() + line.subrange(spans.last().0 as int, spans.last().1 as int)
            + Seq::<char>::empty() =~= line.take(last_end(spans)));
    } else {
        assert(line.take(0) =~= Seq::empty());
    }
}

/// Emphasizes the stretches of a line.
pub fn emphasize_spans(line: &str, spans: &Vec<(usize, usize)>) -> (out: String)
    requires
        regex_limits::spans_in_order(spans@, line@.len()),
    ensures
        out@ == emphasized(line@, spans@),
{
    let mut out = String::new();
    let mut last: usize = 0;
    let mut i: usize = 0;
    assert(spans@.take(0) =~= Seq::empty());
    while i < spans.len()
        invariant
            i <= spans@.len(),
            regex_limits::spans_in_order(spans@, line@.len()),
            last == last_end(spans@.take(i as int)),
            last <= line@.len(),
            out@ == spliced_head(
                line@,
                spans@.take(i as int),
                color::emphasis_start(),
                color::emphasis_end(),
            ),
        decreases spans@.len() - i,
    {
        let (start, end) = spans[i];
        proof {
            let done = spans@.take(i as int);
            assert(spans@.take(i + 1).drop_last() =~= done);
            assert(spans@.take(i + 1).last() == spans@[i as int]);
            assert(spans@[i as int] == (start, end));
            if i > 0 {
                assert(done.last() == spans@[i - 1]);
            }
        }
        out.append(line.substring_char(last, start));
        let stretch = color::emphasize(line.substring_char(start, end));
        out.append(stretch.as_str());
        last = end;
        i += 1;
        assert(out@ =~= spliced_head(
            line@,
            spans@.take(i as int),
            color::emphasis_start(),
            color::emphasis_end(),
        ));
    }
    assert(spans@.take(i as int) =~= spans@);
    let len: usize = line.unicode_len();
    out.append(line.substring_char(last, len));
    assert(line@.subrange(last as int, len as int) =~= line@.skip(last as int));
    out
}

/// Emphasizes what the pattern matches in a line.
pub fn highlight_default_line(line: &str, re: &Pattern) -> (out: String)
    ensures
        out@ == emphasized(line@, regex_limits::pattern_stretches(re@, line@)),
        !re.accepts(line@) ==> out@ == line@,
{
    let spans = re.find_stretches(line);
    let out = emphasize_spans(line, &spans);
    proof {
        if spans@.len() == 0 {
            assert(line@.skip(0) =~= line@);
            assert(Seq::<char>::empty() + line@ =~= line@);
        }
    }
    out
}

/// Writes as another formatter does, and emphasizes what a pattern matches.
pub struct SternHighlightLineFormatter<F: LineFormatter> {
    pub inner: F,
    pub re: Pattern,
}

impl<F: LineFormatter> SternHighlightLineFormatter<F> {
    /// Emphasis on top of another formatter.
    pub fn new(inner: F, re: Pattern) -> (formatter: Self)
        ensures
            formatter.inner == inner,
            formatter.re == re,
    {
        SternHighlightLineFormatter { inner, re }
    }
}

impl<F: LineFormatter> LineFormatter for SternHighlightLineFormatter<F> {
    open spec fn formats(&self, event: LogEvent, before: Seq<char>, after: Seq<char>) -> bool {
        exists|plain: Seq<char>|
            {
                &&& #[trigger] self.inner.formats(event, before, plain)
                &&& after == emphasized(plain, regex_limits::pattern_stretches(self.re@, plain))
                &&& !self.re.accepts(plain) ==> after == plain
            }
    }

    fn format_into(&self, event: &LogEvent, buf: &mut String) {
        self.inner.format_into(event, buf);
        let ghost plain = buf@;
        let out = highlight_default_line(buf.as_str(), &self.re);
        *buf = out;
        assert(self.inner.formats(*event, old(buf)@, plain));
    }
}

/// The patterns that are not empty once trimmed.
pub open spec fn branches(patterns: Seq<Seq<char>>) -> Seq<Seq<char>>
    decreases patterns.len(),
{
    if patterns.len() == 0 {
        Seq::empty()
    } else {
        let rest = branches(patterns.drop_last());
        let trimmed = text::trimmed(patterns.last());
        if trimmed.len() == 0 {
            rest
        } else {
            rest.push(trimmed)
        }
    }
}

/// `list`, which runs from long to short, with `item` put behind all that are as long.
pub open spec fn with_branch(list: Seq<Seq<char>>, item: Seq<char>) -> Seq<Seq<char>>
    decreases list.len(),
{
    if list.len() > 0 && encode_utf8(list.last()).len() < encode_utf8(item).len() {
        with_branch(list.drop_last(), item).push(list.last())
    } else {
        list.push(item)
    }
}

/// The branches from long to short (in bytes); equally long ones keep their order.
pub open spec fn longest_first(list: Seq<Seq<char>>) -> Seq<Seq<char>>
    decreases list.len(),
{
    if list.len() == 0 {
        Seq::empty()
    } else {
        with_branch(longest_first(list.drop_last()), list.last())
    }
}

/// Whether no branch is shorter (in bytes) than a later one.
pub open spec fn descending(list: Seq<Seq<char>>) -> bool {
    forall|i: int, j: int|
        0 <= i < j < list.len() ==> encode_utf8(#[trigger] list[i]).len() >= encode_utf8(
            #[trigger] list[j],
        ).len()
}

proof fn lemma_with_branch(list: Seq<Seq<char>>, item: Seq<char>)
    requires
        descending(list),
    ensures
        descending(with_branch(list, item)),
        with_branch(list, item).to_multiset() == list.to_multiset().insert(item),
        forall|i: int|
            0 <= i < with_branch(list, item).len() ==> {
                ||| #[trigger] with_branch(list, item)[i] == item
                ||| list.contains(with_branch(list, item)[i])
            },
    decreases list.len(),
{
    broadcast use vstd::seq_lib::group_to_multiset_ensures;

    let all = with_branch(list, item);
    if list.len() > 0 && encode_utf8(list.last()).len() < encode_utf8(item).len() {
        let rest = list.drop_last();
        let inner = with_branch(rest, item);
        assert forall|i: int, j: int| 0 <= i < j < rest.len() implies encode_utf8(
            #[trigger] rest[i],
        ).len() >= encode_utf8(#[trigger] rest[j]).len() by {
            assert(rest[i] == list[i] && rest[j] == list[j]);
        }
        lemma_with_branch(rest, item);
        assert(list =~= rest.push(list.last()));
        assert forall|i: int| 0 <= i < all.len() implies {
            ||| #[trigger] all[i] == item
            ||| list.contains(all[i])
        } by {
            if i < inner.len() {
                assert(all[i] == inner[i]);
                if inner[i] != item {
                    let k = choose|k: int| 0 <= k < rest.len() && rest[k] == inner[i];
                    assert(list[k] == all[i]);
                }
            } else {
                assert(list[list.len() - 1] == all[i]);
            }
        }
        assert forall|i: int, j: int| 0 <= i < j < all.len() implies encode_utf8(
            #[trigger] all[i],
        ).len() >= encode_utf8(#[trigger] all[j]).len() by {
            assert(all[i] == inner[i]);
            if j < inner.len() {
                assert(all[j] == inner[j]);
            } else if inner[i] != item {
                let k = choose|k: int| 0 <= k < rest.len() && rest[k] == inner[i];
                assert(list[k] == inner[i]);
                assert(list[list.len() - 1] == all[j]);
            }
        }
        assert(all.to_multiset() =~= list.to_multiset().insert(item));
    } else {
        assert forall|i: int, j: int| 0 <= i < j < all.len() implies encode_utf8(
            #[trigger] all[i],
        ).len() >= encode_utf8(#[trigger] all[j]).len() by {
            if j == all.len() - 1 {
                assert(list[i] == all[i]);
                assert(list[list.len() - 1] == list.last());
            } else {
                assert(list[i] == all[i] && list[j] == all[j]);
            }
        }
        assert forall|i: int| 0 <= i < all.len() implies {
            ||| #[trigger] all[i] == item
            ||| list.contains(all[i])
        } by {
            if i < list.len() {
                assert(list[i] == all[i]);
            }
        }
    }
}

/// Ordering the branches keeps each as often as it occurs, and puts none behind a shorter one.
pub proof fn law_longest_first(list: Seq<Seq<char>>)
    ensures
        descending(longest_first(list)),
        forall|i: int, j: int|
            0 <= i < j < longest_first(list).len() ==> encode_utf8(
                #[trigger] longest_first(list)[i],
            ).len() >= encode_utf8(#[trigger] longest_first(list)[j]).len(),
        longest_first(list).to_multiset() == list.to_multiset(),
    decreases list.len(),
{
    broadcast use vstd::seq_lib::group_to_multiset_ensures;

    if list.len() > 0 {
        law_longest_first(list.drop_last());
        lemma_with_branch(longest_first(list.drop_last()), list.last());
        assert(list =~= list.drop_last().push(list.last()));
        assert(list.to_multiset() =~= list.drop_last().to_multiset().insert(list.last()));
    } else {
        assert(longest_first(list) =~= list);
    }
}

/// The alternation of all patterns to emphasize, if there is any.
pub open spec fn alternation(includes: Seq<Seq<char>>, highlights: Seq<Seq<char>>) -> Option<
    Seq<char>,
> {
    let all = branches(includes) + branches(highlights);
    if all.len() == 0 {
        None
    } else {
        Some("("@ + text::joined(longest_first(all), "|"@) + ")"@)
    }
}

/// Appends the patterns that are not empty once trimmed.
fn append_branches(all: &mut Vec<String>, patterns: &Vec<String>)
    ensures
        text::texts(final(all)@) == text::texts(old(all)@) + branches(text::texts(patterns@)),
{
    let ghost before = text::texts(all@);
    let mut i: usize = 0;
    assert(text::texts(patterns@).take(0) =~= Seq::empty());
    assert(text::texts(all@) =~= before + branches(Seq::empty()));
    while i < patterns.len()
        invariant
            i <= patterns@.len(),
            text::texts(all@) == before + branches(text::texts(patterns@).take(i as int)),
        decreases patterns@.len() - i,
    {
        let trimmed = text::trim(patterns[i].as_str());
        proof {
            let seen = text::texts(patterns@).take(i + 1);
            assert(seen.drop_last() =~= text::texts(patterns@).take(i as int));
            assert(seen.last() == patterns@[i as int]@);
        }
        if !trimmed.is_empty() {
            let ghost held = all@;
            let owned = trimmed.to_owned();
            all.push(owned);
            assert(text::texts(all@) =~= text::texts(held).push(trimmed@));
            assert(text::texts(all@) =~= before + branches(text::texts(patterns@).take(i + 1)));
        }
        i += 1;
    }
    assert(text::texts(patterns@).take(i as int) =~= text::texts(patterns@));
}

/// Puts a branch into a list that runs from long to short.
fn insert_branch(list: &mut Vec<String>, item: String)
    ensures
        text::texts(final(list)@) == with_branch(text::texts(old(list)@), item@),
{
    let ghost before = text::texts(list@);
    let len: usize = item.as_str().as_bytes().len();
    let mut at: usize = list.len();
    assert(before.take(at as int) =~= before);
    assert(with_branch(before, item@) =~= with_branch(before.take(at as int), item@) + before.skip(
        at as int,
    ));
    while at > 0 && list[at - 1].as_str().as_bytes().len() < len
        invariant
            before == text::texts(list@),
            at <= list@.len(),
            len == encode_utf8(item@).len(),
            with_branch(before, item@) == with_branch(before.take(at as int), item@) + before.skip(
                at as int,
            ),
        decreases at,
    {
        proof {
            let head = before.take(at as int);
            assert(head.last() == list@[at - 1]@);
            assert(head.drop_last() =~= before.take(at - 1));
            assert(before.skip(at - 1) =~= seq![head.last()] + before.skip(at as int));
            assert(with_branch(before.take(at - 1), item@).push(head.last()) + before.skip(
                at as int,
            ) =~= with_branch(before.take(at - 1), item@) + before.skip(at - 1));
        }
        at -= 1;
    }
    proof {
        let head = before.take(at as int);
        if at > 0 {
            assert(head.last() == list@[at - 1]@);
        }
        assert(with_branch(head, item@) == head.push(item@));
        assert(before.insert(at as int, item@) =~= head.push(item@) + before.skip(at as int));
    }
    let ghost held = list@;
    let ghost placed = item@;
    list.insert(at, item);
    assert(text::texts(list@) =~= text::texts(held).insert(at as int, placed));
}

/// The alternation of all patterns to emphasize: trimmed, without empty ones, longest first.
pub fn highlight_alternation(includes: &Vec<String>, highlights: &Vec<String>) -> (pattern: Option<
    String,
>)
    ensures
        match pattern {
            Some(p) => alternation(text::texts(includes@), text::texts(highlights@)) == Some(p@),
            None => alternation(text::texts(includes@), text::texts(highlights@)) is None,
        },
{
    let mut all: Vec<String> = Vec::new();
    append_branches(&mut all, includes);
    append_branches(&mut all, highlights);
    let ghost wanted = branches(text::texts(includes@)) + branches(text::texts(highlights@));
    assert(text::texts(Seq::<String>::empty()) =~= Seq::empty());
    assert(text::texts(all@) =~= wanted);
    if all.len() == 0 {
        return None;
    }
    let mut ordered: Vec<String> = Vec::new();
    let mut i: usize = 0;
    assert(text::texts(ordered@) =~= Seq::empty());
    assert(wanted.take(0) =~= Seq::empty());
    while i < all.len()
        invariant
            i <= all@.len(),
            text::texts(all@) == wanted,
            text::texts(ordered@) == longest_first(wanted.take(i as int)),
        decreases all@.len() - i,
    {
        assert(wanted.take(i + 1).drop_last() =~= wanted.take(i as int));
        assert(wanted.take(i + 1).last() == all@[i as int]@);
        insert_branch(&mut ordered, all[i].clone());
        i += 1;
    }
    assert(wanted.take(i as int) =~= wanted);
    let merged = text::join(&ordered, "|");
    Some("(".to_owned().concat(merged.as_str()).concat(")"))
}

/// The pattern that matches whatever one of the patterns to emphasize matches. Without any such
/// pattern there is none; the error says what is wrong with the alternation.
pub fn compile_stern_highlight_regex(includes: &Vec<String>, highlights: &Vec<String>) -> (compiled:
    Result<Option<Pattern>, String>)
    ensures
        match alternation(text::texts(includes@), text::texts(highlights@)) {
            None => compiled matches Ok(None),
            Some(pattern) => {
                &&& compiled is Ok == regex_limits::pattern_compiles(pattern)
                &&& compiled matches Ok(found) ==> (found matches Some(p) && p@ == pattern)
                &&& compiled matches Err(reason) ==> reason@ == regex_limits::pattern_error(pattern)
            },
        },
{
    match highlight_alternation(includes, highlights) {
        None => Ok(None),
        Some(pattern) => match Pattern::compile(pattern.as_str()) {
            Ok(p) => Ok(Some(p)),
            Err(reason) => Err(reason),
        },
    }
}

/// Each pattern that is not blank is a branch, trimmed, wherever it stands; a blank one is none.
pub proof fn law_branches(before: Seq<Seq<char>>, pattern: Seq<char>, after: Seq<Seq<char>>)
    ensures
        branches(before.push(pattern) + after) == if text::trimmed(pattern).len() > 0 {
            branches(before).push(text::trimmed(pattern)) + branches(after)
        } else {
            branches(before) + branches(after)
        },
    decreases after.len(),
{
    let all = before.push(pattern) + after;
    let head = if text::trimmed(pattern).len() > 0 {
        branches(before).push(text::trimmed(pattern))
    } else {
        branches(before)
    };
    if after.len() == 0 {
        assert(all.drop_last() =~= before);
        assert(all.last() == pattern);
        assert(head + branches(after) =~= head);
    } else {
        let rest = after.drop_last();
        law_branches(before, pattern, rest);
        assert(all.drop_last() =~= before.push(pattern) + rest);
        assert(all.last() == after.last());
        assert(branches(all) =~= head + branches(after));
    }
}

proof fn lemma_some_branch(patterns: Seq<Seq<char>>)
    ensures
        branches(patterns).len() > 0 <==> exists|i: int|
            0 <= i < patterns.len() && text::trimmed(#[trigger] patterns[i]).len() > 0,
    decreases patterns.len(),
{
    if patterns.len() > 0 {
        let rest = patterns.drop_last();
        lemma_some_branch(rest);
        if exists|i: int| 0 <= i < rest.len() && text::trimmed(#[trigger] rest[i]).len() > 0 {
            let i = choose|i: int| 0 <= i < rest.len() && text::trimmed(#[trigger] rest[i]).len() > 0;
            assert(patterns[i] == rest[i]);
        }
        if text::trimmed(patterns.last()).len() > 0 {
            assert(text::trimmed(patterns[patterns.len() - 1]).len() > 0);
        }
        if exists|i: int| 0 <= i < patterns.len() && text::trimmed(#[trigger] patterns[i]).len() > 0 {
            let i = choose|i: int|
                0 <= i < patterns.len() && text::trimmed(#[trigger] patterns[i]).len() > 0;
            if i < rest.len() {
                assert(rest[i] == patterns[i]);
            }
        }
    }
}

/// There is something to emphasize exactly if some pattern of either list is not blank.
pub proof fn law_blank_patterns_emphasize_nothing(includes: Seq<Seq<char>>, highlights: Seq<Seq<char>>)
    ensures
        alternation(includes, highlights) is Some <==> (exists|i: int|
            0 <= i < includes.len() && text::trimmed(#[trigger] includes[i]).len() > 0) || (exists|i: int|
            0 <= i < highlights.len() && text::trimmed(#[trigger] highlights[i]).len() > 0),
{
    lemma_some_branch(includes);
    lemma_some_branch(highlights);
}

/// What is emphasized is one group of all the branches of both lists, each as often as it occurs, with
/// bars between them and none behind a shorter one.
pub proof fn law_alternation_has_every_branch(includes: Seq<Seq<char>>, highlights: Seq<Seq<char>>)
    ensures
        alternation(includes, highlights) matches Some(pattern) ==> exists|list: Seq<Seq<char>>|
            {
                &&& pattern == seq!['('] + #[trigger] text::joined(list, seq!['|']) + seq![')']
                &&& descending(list)
                &&& list.to_multiset() == (branches(includes) + branches(highlights)).to_multiset()
                &&& list == longest_first(branches(includes) + branches(highlights))
            },
{
    reveal_strlit("(");
    reveal_strlit("|");
    reveal_strlit(")");
    assert("("@ =~= seq!['('] && "|"@ =~= seq!['|'] && ")"@ =~= seq![')']);
    let all = branches(includes) + branches(highlights);
    law_longest_first(all);
    let list = longest_first(all);
    assert(text::joined(list, seq!['|']) == text::joined(list, "|"@));
}

proof fn lemma_head_marks_each(
    line: Seq<char>,
    spans: Seq<(usize, usize)>,
    open: Seq<char>,
    close: Seq<char>,
    i: int,
) -> (around: (Seq<char>, Seq<char>))
    requires
        0 <= i < spans.len(),
    ensures
        spliced_head(line, spans, open, close) == around.0 + (open + line.subrange(
            spans[i].0 as int,
            spans[i].1 as int,
        ) + close) + around.1,
    decreases spans.len(),
{
    let rest = spans.drop_last();
    let gap = line.subrange(last_end(rest), spans.last().0 as int);
    let last = line.subrange(spans.last().0 as int, spans.last().1 as int);
    let head = spliced_head(line, rest, open, close);
    let whole = spliced_head(line, spans, open, close);
    if i == spans.len() - 1 {
        assert(whole =~= head + gap + (open + last + close) + Seq::<char>::empty());
        (head + gap, Seq::empty())
    } else {
        let (a, b) = lemma_head_marks_each(line, rest, open, close, i);
        assert(rest[i] == spans[i]);
        let stretch = open + line.subrange(spans[i].0 as int, spans[i].1 as int) + close;
        let tail = b + gap + open + last + close;
        assert(whole =~= a + stretch + tail);
        (a, tail)
    }
}

/// Every stretch that is matched stands, whole, between the marks of the emphasis.
pub proof fn law_every_match_is_emphasized(line: Seq<char>, spans: Seq<(usize, usize)>, i: int)
    requires
        0 <= i < spans.len(),
    ensures
        exists|before: Seq<char>, after: Seq<char>|
            emphasized(line, spans) == #[trigger] (before + ("\x1b[1m\x1b[31m"@ + line.subrange(
                spans[i].0 as int,
                spans[i].1 as int,
            ) + "\x1b[39m\x1b[0m"@) + after),
{
    let (before, rest) = lemma_head_marks_each(
        line,
        spans,
        color::emphasis_start(),
        color::emphasis_end(),
        i,
    );
    let after = rest + line.skip(last_end(spans));
    assert(emphasized(line, spans) =~= before + ("\x1b[1m\x1b[31m"@ + line.subrange(
        spans[i].0 as int,
        spans[i].1 as int,
    ) + "\x1b[39m\x1b[0m"@) + after);
}

/// A line of which nothing is matched stays as it is.
pub proof fn law_nothing_matched_nothing_emphasized(line: Seq<char>)
    ensures
        emphasized(line, Seq::empty()) == line,
{
    assert(emphasized(line, Seq::empty()) =~= line);
}

proof fn lemma_place_of_branch(list: Seq<Seq<char>>, item: Seq<char>) -> (k: int)
    requires
        descending(list),
    ensures
        0 <= k <= list.len(),
        with_branch(list, item) == list.insert(k, item),
        forall|i: int|
            0 <= i < k ==> encode_utf8(#[trigger] list[i]).len() >= encode_utf8(item).len(),
        forall|i: int|
            k <= i < list.len() ==> encode_utf8(#[trigger] list[i]).len() < encode_utf8(item).len(),
    decreases list.len(),
{
    if list.len() > 0 && encode_utf8(list.last()).len() < encode_utf8(item).len() {
        let rest = list.drop_last();
        assert forall|i: int, j: int| 0 <= i < j < rest.len() implies encode_utf8(
            #[trigger] rest[i],
        ).len() >= encode_utf8(#[trigger] rest[j]).len() by {
            assert(rest[i] == list[i] && rest[j] == list[j]);
        }
        let k = lemma_place_of_branch(rest, item);
        assert(rest.insert(k, item).push(list.last()) =~= list.insert(k, item));
        assert forall|i: int| 0 <= i < k implies encode_utf8(#[trigger] list[i]).len()
            >= encode_utf8(item).len() by {
            assert(rest[i] == list[i]);
        }
        assert forall|i: int| k <= i < list.len() implies encode_utf8(#[trigger] list[i]).len()
            < encode_utf8(item).len() by {
            if i < rest.len() {
                assert(rest[i] == list[i]);
            }
        }
        k
    } else {
        let k: int = list.len() as int;
        assert(list.push(item) =~= list.insert(k, item));
        assert forall|i: int| 0 <= i < k implies encode_utf8(#[trigger] list[i]).len()
            >= encode_utf8(item).len() by {
            assert(list[k - 1] == list.last());
        }
        k
    }
}

/// A further branch leaves the order of the others and comes behind all that are at least as long, so
/// equally long branches keep the order in which they were given.
pub proof fn law_equally_long_keep_order(list: Seq<Seq<char>>, item: Seq<char>)
    ensures
        exists|k: int|
            {
                &&& 0 <= k <= longest_first(list).len()
                &&& longest_first(list.push(item)) == #[trigger] longest_first(list).insert(k, item)
                &&& forall|i: int|
                    0 <= i < k ==> encode_utf8(#[trigger] longest_first(list)[i]).len() >= encode_utf8(
                        item,
                    ).len()
                &&& forall|i: int|
                    k <= i < longest_first(list).len() ==> encode_utf8(
                        #[trigger] longest_first(list)[i],
                    ).len() < encode_utf8(item).len()
            },
{
    law_longest_first(list);
    let k = lemma_place_of_branch(longest_first(list), item);
    assert(list.push(item).drop_last() =~= list);
    assert(longest_first(list.push(item)) == longest_first(list).insert(k, item));
}

/// What is written is what the formatter below writes with each match emphasized, and that itself where
/// the pattern does not occur in it.
pub proof fn law_emphasis_on_top<F: LineFormatter>(
    formatter: SternHighlightLineFormatter<F>,
    event: LogEvent,
    before: Seq<char>,
    after: Seq<char>,
)
    requires
        formatter.formats(event, before, after),
    ensures
        exists|plain: Seq<char>|
            {
                &&& #[trigger] formatter.inner.formats(event, before, plain)
                &&& regex_limits::pattern_matches(formatter.re@, plain) ==> after == emphasized(
                    plain,
                    regex_limits::pattern_stretches(formatter.re@, plain),
                )
                &&& !regex_limits::pattern_matches(formatter.re@, plain) ==> after == plain
            },
{
}

} // verus!
