//! Text operations over the character model of `str` and `String`.

use vstd::prelude::*;
use vstd::utf8::*;

verus! {

/// `String::push` appends one character.
pub assume_specification[ String::push ](s: &mut String, c: char)
    ensures
        final(s)@ == old(s)@.push(c),
;

/// The characters with the Unicode `White_Space` property.
pub open spec fn is_white_space(c: char) -> bool {
    ||| '\u{9}' <= c && c <= '\u{d}'
    ||| c == ' '
    ||| c == '\u{85}'
    ||| c == '\u{a0}'
    ||| c == '\u{1680}'
    ||| '\u{2000}' <= c && c <= '\u{200a}'
    ||| c == '\u{2028}'
    ||| c == '\u{2029}'
    ||| c == '\u{202f}'
    ||| c == '\u{205f}'
    ||| c == '\u{3000}'
}

/// `text` without its leading white space.
pub open spec fn trimmed_start(text: Seq<char>) -> Seq<char>
    decreases text.len(),
{
    if text.len() > 0 && is_white_space(text[0]) {
        trimmed_start(text.skip(1))
    } else {
        text
    }
}

/// `text` without its trailing white space.
pub open spec fn trimmed_end(text: Seq<char>) -> Seq<char>
    decreases text.len(),
{
    if text.len() > 0 && is_white_space(text.last()) {
        trimmed_end(text.drop_last())
    } else {
        text
    }
}

/// `text` without leading and trailing white space.
pub open spec fn trimmed(text: Seq<char>) -> Seq<char> {
    trimmed_end(trimmed_start(text))
}

/// Whether `c` is white space.
pub fn is_whitespace(c: char) -> (white: bool)
    ensures
        white == is_white_space(c),
{
    ('\u{9}' <= c && c <= '\u{d}') || c == ' ' || c == '\u{85}' || c == '\u{a0}' || c == '\u{1680}'
        || ('\u{2000}' <= c && c <= '\u{200a}') || c == '\u{2028}' || c == '\u{2029}' || c
        == '\u{202f}' || c == '\u{205f}' || c == '\u{3000}'
}

/// The characters of `text` in order.
pub fn to_chars(text: &str) -> (chars: Vec<char>)
    ensures
        chars@ == text@,
{
    let mut chars: Vec<char> = Vec::new();
    for c in it: text.chars()
        invariant
            chars@ == text@.take(it.index()),
            it.seq() == text@,
    {
        chars.push(c);
        assert(text@.take(it.index() + 1) == text@.take(it.index()).push(c));
    }
    assert(text@.take(text@.len() as int) == text@);
    chars
}

/// How many characters of a text begin before a byte offset of its UTF-8 form.
pub open spec fn chars_before(text: Seq<char>, offset: int) -> nat
    decreases text.len(),
{
    if text.len() == 0 || offset <= 0 {
        0
    } else {
        1 + chars_before(text.skip(1), offset - encode_scalar(text[0] as u32).len())
    }
}

/// How many bytes UTF-8 takes for a character.
pub fn utf8_width(c: char) -> (width: u128)
    ensures
        width == encode_scalar(c as u32).len(),
        1 <= width <= 4,
{
    let code = c as u32;
    if code <= 0x7f {
        1
    } else if code <= 0x7ff {
        2
    } else if code <= 0xffff {
        3
    } else {
        4
    }
}

/// A later offset has no fewer characters before it, and none has more than there are.
pub proof fn lemma_chars_before_grows(text: Seq<char>, a: int, b: int)
    requires
        a <= b,
    ensures
        chars_before(text, a) <= chars_before(text, b) <= text.len(),
    decreases text.len(),
{
    if text.len() > 0 {
        let width = encode_scalar(text[0] as u32).len();
        lemma_chars_before_grows(text.skip(1), a - width, b - width);
    }
}

/// The characters before an offset are counted from any place that is not behind it.
pub proof fn lemma_chars_before_from(text: Seq<char>, i: int, offset: int)
    requires
        0 <= i <= text.len(),
        i == 0 || encode_utf8(text.take(i - 1)).len() < offset,
    ensures
        chars_before(text, offset) == i + chars_before(
            text.skip(i),
            offset - encode_utf8(text.take(i)).len(),
        ),
    decreases i,
{
    if i == 0 {
        assert(text.skip(0) =~= text);
        assert(text.take(0) =~= Seq::empty());
    } else {
        let rest = text.skip(1);
        let width = encode_scalar(text[0] as u32).len();
        assert(text.take(i).drop_first() =~= rest.take(i - 1));
        assert(text.take(i)[0] == text[0]);
        assert(encode_utf8(text.take(i)).len() == width + encode_utf8(rest.take(i - 1)).len());
        if i > 1 {
            assert(text.take(i - 1).drop_first() =~= rest.take(i - 2));
            assert(text.take(i - 1)[0] == text[0]);
        } else {
            assert(text.take(0) =~= Seq::empty());
        }
        assert(offset > 0);
        lemma_chars_before_from(rest, i - 1, offset - width);
        assert(rest.skip(i - 1) =~= text.skip(i));
    }
}

/// A character is found again by the offset at which it begins.
pub proof fn law_offset_finds_character(text: Seq<char>, i: int)
    requires
        0 <= i <= text.len(),
    ensures
        chars_before(text, encode_utf8(text.take(i)).len() as int) == i,
    decreases i,
{
    if i == 0 {
        assert(text.take(0) =~= Seq::empty());
    } else {
        let rest = text.skip(1);
        assert(text.take(i).drop_first() =~= rest.take(i - 1));
        assert(text.take(i)[0] == text[0]);
        law_offset_finds_character(rest, i - 1);
    }
}

proof fn lemma_trimmed_start_begins(text: Seq<char>)
    ensures
        trimmed_start(text).len() > 0 ==> !is_white_space(trimmed_start(text)[0]),
    decreases text.len(),
{
    if text.len() > 0 && is_white_space(text[0]) {
        lemma_trimmed_start_begins(text.skip(1));
    }
}

proof fn lemma_trimmed_end_ends(text: Seq<char>)
    ensures
        trimmed_end(text).is_prefix_of(text),
        trimmed_end(text).len() > 0 ==> !is_white_space(trimmed_end(text).last()),
    decreases text.len(),
{
    if text.len() > 0 && is_white_space(text.last()) {
        lemma_trimmed_end_ends(text.drop_last());
    }
}

/// A trimmed text has nothing left to trim.
pub proof fn lemma_trimmed_is_trimmed(text: Seq<char>)
    ensures
        trimmed(trimmed(text)) == trimmed(text),
{
    lemma_trimmed_start_begins(text);
    lemma_trimmed_end_ends(trimmed_start(text));
}

proof fn lemma_trimmed_start_skips(text: Seq<char>, i: int)
    requires
        0 <= i <= text.len(),
        forall|j: int| 0 <= j < i ==> is_white_space(#[trigger] text[j]),
    ensures
        trimmed_start(text) == trimmed_start(text.skip(i)),
    decreases i,
{
    if i > 0 {
        let rest = text.skip(1);
        assert forall|j: int| 0 <= j < i - 1 implies is_white_space(#[trigger] rest[j]) by {
            assert(rest[j] == text[j + 1]);
        }
        lemma_trimmed_start_skips(rest, i - 1);
        assert(rest.skip(i - 1) == text.skip(i));
    } else {
        assert(text.skip(0) == text);
    }
}

proof fn lemma_trimmed_end_drops(text: Seq<char>, n: int)
    requires
        0 <= n <= text.len(),
        forall|j: int| n <= j < text.len() ==> is_white_space(#[trigger] text[j]),
    ensures
        trimmed_end(text) == trimmed_end(text.take(n)),
    decreases text.len() - n,
{
    if n < text.len() {
        lemma_trimmed_end_drops(text.drop_last(), n);
        assert(text.drop_last().take(n) == text.take(n));
    } else {
        assert(text.take(n) == text);
    }
}

/// `str::trim_start` over the character model.
pub fn trim_start(text: &str) -> (rest: &str)
    ensures
        rest@ == trimmed_start(text@),
{
    let chars = to_chars(text);
    let mut i: usize = 0;
    while i < chars.len() && is_whitespace(chars[i])
        invariant
            i <= chars.len(),
            forall|j: int| 0 <= j < i ==> is_white_space(#[trigger] chars@[j]),
        decreases chars.len() - i,
    {
        i += 1;
    }
    proof {
        lemma_trimmed_start_skips(chars@, i as int);
        assert(text@.subrange(i as int, text@.len() as int) == text@.skip(i as int));
    }
    text.substring_char(i, chars.len())
}

/// `str::trim` over the character model.
pub fn trim(text: &str) -> (rest: &str)
    ensures
        rest@ == trimmed(text@),
{
    let start = trim_start(text);
    let chars = to_chars(start);
    let mut n: usize = chars.len();
    while n > 0 && is_whitespace(chars[n - 1])
        invariant
            n <= chars.len(),
            forall|j: int| n <= j < chars.len() ==> is_white_space(#[trigger] chars@[j]),
        decreases n,
    {
        n -= 1;
    }
    proof {
        lemma_trimmed_end_drops(chars@, n as int);
        assert(start@.subrange(0, n as int) == start@.take(n as int));
    }
    start.substring_char(0, n)
}

/// Whether two texts hold the same characters.
pub fn same(a: &str, b: &str) -> (equal: bool)
    ensures
        equal == (a@ == b@),
{
    let x = a.as_bytes();
    let y = b.as_bytes();
    proof {
        encode_utf8_decode_utf8(a@);
        encode_utf8_decode_utf8(b@);
    }
    if x.len() != y.len() {
        return false;
    }
    let mut i: usize = 0;
    while i < x.len()
        invariant
            i <= x.len(),
            x.len() == y.len(),
            x@ == encode_utf8(a@),
            y@ == encode_utf8(b@),
            forall|j: int| 0 <= j < i ==> x@[j] == y@[j],
        decreases x.len() - i,
    {
        if x[i] != y[i] {
            return false;
        }
        i += 1;
    }
    assert(x@ == y@);
    true
}

/// The lower-case form of an ASCII letter; every other character as it is.
pub open spec fn ascii_lower(c: char) -> char {
    if 'A' <= c && c <= 'Z' {
        ((c as u8) + 32) as char
    } else {
        c
    }
}

/// `text` with its ASCII letters in lower case.
pub open spec fn ascii_lowered(text: Seq<char>) -> Seq<char> {
    text.map_values(|c: char| ascii_lower(c))
}

/// `str::to_ascii_lowercase` over the character model.
pub fn to_ascii_lowercase(text: &str) -> (lowered: String)
    ensures
        lowered@ == ascii_lowered(text@),
{
    let chars = to_chars(text);
    let mut lowered: String = String::new();
    let mut i: usize = 0;
    while i < chars.len()
        invariant
            i <= chars.len(),
            chars@ == text@,
            lowered@ == ascii_lowered(text@.take(i as int)),
        decreases chars.len() - i,
    {
        let c = chars[i];
        let d = if 'A' <= c && c <= 'Z' {
            ((c as u8) + 32) as char
        } else {
            c
        };
        lowered.push(d);
        assert(ascii_lowered(text@.take(i + 1)) == ascii_lowered(text@.take(i as int)).push(d));
        i += 1;
    }
    assert(text@.take(text@.len() as int) == text@);
    lowered
}

/// `str::eq_ignore_ascii_case` over the character model.
pub fn eq_ignore_ascii_case(a: &str, b: &str) -> (equal: bool)
    ensures
        equal == (ascii_lowered(a@) == ascii_lowered(b@)),
{
    let x = to_ascii_lowercase(a);
    let y = to_ascii_lowercase(b);
    x == y
}

/// The parts of `text` between the occurrences of `mark`: each further character either
/// opens a new part or extends the last one.
pub open spec fn parts(text: Seq<char>, mark: char) -> Seq<Seq<char>>
    decreases text.len(),
{
    if text.len() == 0 {
        seq![Seq::<char>::empty()]
    } else {
        let before = parts(text.drop_last(), mark);
        if text.last() == mark {
            before.push(Seq::<char>::empty())
        } else {
            before.drop_last().push(before.last().push(text.last()))
        }
    }
}

/// The character models of a list of strings.
pub open spec fn texts(list: Seq<String>) -> Seq<Seq<char>> {
    list.map_values(|s: String| s@)
}

/// `str::split` on one character, over the character model.
pub fn split(text: &str, mark: char) -> (list: Vec<String>)
    ensures
        texts(list@) == parts(text@, mark),
        list@.len() > 0,
{
    let chars = to_chars(text);
    let mut list: Vec<String> = Vec::new();
    let mut part: String = String::new();
    let mut i: usize = 0;
    assert(texts(list@).push(part@) =~= parts(text@.take(0), mark));
    while i < chars.len()
        invariant
            i <= chars.len(),
            chars@ == text@,
            texts(list@).push(part@) == parts(text@.take(i as int), mark),
        decreases chars.len() - i,
    {
        let ghost before = texts(list@).push(part@);
        let ghost shown = text@.take(i + 1);
        proof {
            assert(shown.drop_last() == text@.take(i as int));
            assert(shown.last() == chars@[i as int]);
            assert(before.drop_last() == texts(list@));
        }
        let c = chars[i];
        if c == mark {
            list.push(part);
            part = String::new();
            assert(texts(list@) == before);
        } else {
            part.push(c);
        }
        i += 1;
    }
    assert(text@.take(text@.len() as int) == text@);
    let ghost whole = texts(list@).push(part@);
    list.push(part);
    assert(texts(list@) == whole);
    list
}

/// A position with the wanted element and none of it before is the first index.
pub proof fn lemma_first_index<A>(list: Seq<A>, wanted: A, i: int)
    requires
        0 <= i < list.len(),
        list[i] == wanted,
        forall|j: int| 0 <= j < i ==> #[trigger] list[j] != wanted,
    ensures
        list.index_of_first(wanted) == Some(i),
{
    assert(list.contains(wanted));
    list.index_of_first_ensures(wanted);
}

/// A list without the wanted element has no index of it.
pub proof fn lemma_no_index<A>(list: Seq<A>, wanted: A)
    requires
        forall|j: int| 0 <= j < list.len() ==> #[trigger] list[j] != wanted,
    ensures
        list.index_of_first(wanted) is None,
{
    list.index_of_first_ensures(wanted);
}

/// What stands before and after the first occurrence of `mark`.
pub open spec fn cut_once(text: Seq<char>, mark: char) -> Option<(Seq<char>, Seq<char>)> {
    match text.index_of_first(mark) {
        Some(i) => Some((text.take(i), text.skip(i + 1))),
        None => None,
    }
}

/// `str::split_once` on one character, over the character model.
pub fn split_once(text: &str, mark: char) -> (cut: Option<(&str, &str)>)
    ensures
        match cut {
            Some((before, after)) => cut_once(text@, mark) == Some((before@, after@)),
            None => cut_once(text@, mark) is None,
        },
{
    let chars = to_chars(text);
    proof {
        text@.index_of_first_ensures(mark);
    }
    let mut i: usize = 0;
    while i < chars.len()
        invariant
            i <= chars.len(),
            chars@ == text@,
            forall|j: int| 0 <= j < i ==> chars@[j] != mark,
            text@.contains(mark) ==> {
                &&& text@.index_of_first(mark) is Some
                &&& 0 <= text@.index_of_first(mark)->0 < text@.len()
                &&& text@[text@.index_of_first(mark)->0] == mark
                &&& forall|j: int| 0 <= j < text@.index_of_first(mark)->0 ==> text@[j] != mark
            },
            !text@.contains(mark) ==> text@.index_of_first(mark) is None,
        decreases chars.len() - i,
    {
        if chars[i] == mark {
            let n: usize = chars.len();
            assert(text@.contains(mark));
            assert(text@.index_of_first(mark) == Some(i as int));
            assert(text@.subrange(0, i as int) == text@.take(i as int));
            assert(text@.subrange(i + 1, n as int) == text@.skip(i + 1));
            return Some((text.substring_char(0, i), text.substring_char(i + 1, n)));
        }
        i += 1;
    }
    None
}

/// The texts of `list` with `between` between each two neighbours.
pub open spec fn joined(list: Seq<Seq<char>>, between: Seq<char>) -> Seq<char>
    decreases list.len(),
{
    if list.len() == 0 {
        Seq::empty()
    } else if list.len() == 1 {
        list[0]
    } else {
        joined(list.drop_last(), between) + between + list.last()
    }
}

/// `[String]::join` over the character model.
pub fn join(list: &Vec<String>, between: &str) -> (whole: String)
    ensures
        whole@ == joined(texts(list@), between@),
{
    let mut whole: String = String::new();
    let mut i: usize = 0;
    while i < list.len()
        invariant
            i <= list.len(),
            whole@ == joined(texts(list@).take(i as int), between@),
        decreases list.len() - i,
    {
        let ghost shown = texts(list@).take(i + 1);
        assert(shown.drop_last() == texts(list@).take(i as int));
        assert(shown.last() == list@[i as int]@);
        if i > 0 {
            whole.append(between);
            whole.append(list[i].as_str());
        } else {
            whole.append(list[i].as_str());
            assert(whole@ =~= list@[0]@);
        }
        i += 1;
    }
    assert(texts(list@).take(list@.len() as int) == texts(list@));
    whole
}

/// The decimal digit that stands for `d`.
pub open spec fn digit(d: nat) -> char {
    (('0' as nat) + d) as char
}

/// `n` in decimal notation.
pub open spec fn decimal(n: nat) -> Seq<char>
    decreases n,
{
    if n < 10 {
        seq![digit(n)]
    } else {
        decimal(n / 10).push(digit(n % 10))
    }
}

/// `u64` in decimal notation.
pub fn to_decimal(n: u64) -> (text: String)
    ensures
        text@ == decimal(n as nat),
    decreases n,
{
    let c = ((n % 10) as u8 + 48) as char;
    assert(c == digit((n % 10) as nat));
    let mut text = if n < 10 {
        String::new()
    } else {
        to_decimal(n / 10)
    };
    text.push(c);
    text
}

/// The decimal digits of `n`, with a minus sign in front of those of a negative number.
pub open spec fn signed_decimal(n: int) -> Seq<char> {
    if n < 0 {
        "-"@ + decimal((-n) as nat)
    } else {
        decimal(n as nat)
    }
}

/// The decimal digits of `n`, with a minus sign in front of those of a negative number.
pub fn to_signed_decimal(n: i64) -> (text: String)
    requires
        n > i64::MIN,
    ensures
        text@ == signed_decimal(n as int),
{
    if n < 0 {
        let digits = to_decimal((-n) as u64);
        "-".to_owned().concat(digits.as_str())
    } else {
        to_decimal(n as u64)
    }
}


/// Among the ASCII characters white space is the space and the controls from tab to carriage
/// return, and nothing else.
pub proof fn law_ascii_white_space(c: char)
    requires
        (c as u32) < 128,
    ensures
        is_white_space(c) <==> c == ' ' || c == '\t' || c == '\n' || c == '\r' || c == '\u{b}' || c
            == '\u{c}',
{
}

/// Trimming takes white space from the two ends and nothing else: what stands before and behind the
/// trimmed text is all white space, and the trimmed text neither begins nor ends with any.
pub proof fn law_trimmed(text: Seq<char>)
    ensures
        exists|i: int, j: int|
            {
                &&& 0 <= i <= j <= text.len()
                &&& trimmed(text) == #[trigger] text.subrange(i, j)
                &&& forall|k: int| 0 <= k < i ==> is_white_space(#[trigger] text[k])
                &&& forall|k: int| j <= k < text.len() ==> is_white_space(#[trigger] text[k])
            },
        trimmed(text).len() > 0 ==> !is_white_space(trimmed(text)[0]) && !is_white_space(
            trimmed(text).last(),
        ),
{
    lemma_trimmed_start_begins(text);
    lemma_trimmed_end_ends(trimmed_start(text));
    let i = lemma_trimmed_start_is_rest(text);
    let rest = trimmed_start(text);
    lemma_trimmed_end_drops_white_space(rest);
    let n: int = trimmed(text).len() as int;
    assert(trimmed(text) =~= text.subrange(i, i + n));
    assert forall|k: int| i + n <= k < text.len() implies is_white_space(#[trigger] text[k]) by {
        assert(text[k] == rest[k - i]);
    }
}

/// A text of white space alone trims to nothing.
pub proof fn law_blank_trims_to_nothing(text: Seq<char>)
    requires
        forall|k: int| 0 <= k < text.len() ==> is_white_space(#[trigger] text[k]),
    ensures
        trimmed(text).len() == 0,
{
    lemma_trimmed_start_skips(text, text.len() as int);
}

proof fn lemma_trimmed_start_is_rest(text: Seq<char>) -> (i: int)
    ensures
        0 <= i <= text.len(),
        trimmed_start(text) == text.skip(i),
        forall|k: int| 0 <= k < i ==> is_white_space(#[trigger] text[k]),
    decreases text.len(),
{
    if text.len() > 0 && is_white_space(text[0]) {
        let rest = text.skip(1);
        let j = lemma_trimmed_start_is_rest(rest);
        assert(rest.skip(j) =~= text.skip(j + 1));
        assert forall|k: int| 0 <= k < j + 1 implies is_white_space(#[trigger] text[k]) by {
            if k > 0 {
                assert(text[k] == rest[k - 1]);
            }
        }
        j + 1
    } else {
        assert(text.skip(0) =~= text);
        0
    }
}

proof fn lemma_trimmed_end_drops_white_space(text: Seq<char>)
    ensures
        trimmed_end(text).len() <= text.len(),
        forall|k: int|
            trimmed_end(text).len() <= k < text.len() ==> is_white_space(#[trigger] text[k]),
    decreases text.len(),
{
    if text.len() > 0 && is_white_space(text.last()) {
        let rest = text.drop_last();
        lemma_trimmed_end_drops_white_space(rest);
        assert forall|k: int| trimmed_end(text).len() <= k < text.len() implies is_white_space(
            #[trigger] text[k],
        ) by {
            if k < rest.len() {
                assert(rest[k] == text[k]);
            }
        }
    }
}

/// A text with the mark in it is cut at the first one: what stands before has none, and putting the
/// mark back between the two sides gives the text again. Without a mark there is no cut.
pub proof fn law_cut_at_first_mark(text: Seq<char>, mark: char)
    ensures
        match cut_once(text, mark) {
            Some((before, after)) => {
                &&& text.contains(mark)
                &&& !before.contains(mark)
                &&& text == before.push(mark) + after
            },
            None => !text.contains(mark),
        },
{
    text.index_of_first_ensures(mark);
    if text.contains(mark) {
        let i = text.index_of_first(mark)->0;
        assert(text =~= text.take(i).push(mark) + text.skip(i + 1));
        assert forall|j: int| 0 <= j < i implies #[trigger] text.take(i)[j] != mark by {
            assert(text.take(i)[j] == text[j]);
        }
    }
}

/// Two sides, of which the first has no mark, are what the text with the mark between them is cut
/// into.
pub proof fn law_cut_undoes_putting_together(before: Seq<char>, mark: char, after: Seq<char>)
    requires
        !before.contains(mark),
    ensures
        cut_once(before.push(mark) + after, mark) == Some((before, after)),
{
    let text = before.push(mark) + after;
    let i: int = before.len() as int;
    assert(text[i] == mark);
    assert forall|j: int| 0 <= j < i implies #[trigger] text[j] != mark by {
        assert(before[j] == text[j]);
        assert(before.contains(before[j]));
    }
    lemma_first_index(text, mark, i);
    assert(text.take(i) =~= before);
    assert(text.skip(i + 1) =~= after);
}

/// No part of a text holds the mark, and the parts with the mark between them are the text.
pub proof fn law_parts_make_the_text(text: Seq<char>, mark: char)
    ensures
        parts(text, mark).len() > 0,
        forall|i: int|
            0 <= i < parts(text, mark).len() ==> !(#[trigger] parts(text, mark)[i]).contains(mark),
        joined(parts(text, mark), seq![mark]) == text,
    decreases text.len(),
{
    let list = parts(text, mark);
    if text.len() == 0 {
        assert(list[0] =~= text);
    } else {
        let rest = text.drop_last();
        let before = parts(rest, mark);
        law_parts_make_the_text(rest, mark);
        assert(text =~= rest.push(text.last()));
        if text.last() == mark {
            assert(list.drop_last() =~= before);
            assert(list.last() =~= Seq::<char>::empty());
            assert(joined(list, seq![mark]) =~= text);
        } else {
            let grown = before.last().push(text.last());
            assert(list.last() == grown);
            assert(list.drop_last() =~= before.drop_last());
            assert(!grown.contains(mark)) by {
                assert(!before[before.len() - 1].contains(mark));
                assert forall|k: int| 0 <= k < grown.len() implies #[trigger] grown[k] != mark by {
                    if k < before.last().len() {
                        assert(grown[k] == before.last()[k]);
                        assert(before.last().contains(before.last()[k]));
                    }
                }
            }
            assert forall|i: int| 0 <= i < list.len() implies !(#[trigger] list[i]).contains(mark) by {
                if i < list.len() - 1 {
                    assert(list[i] == before[i]);
                }
            }
            assert(joined(list, seq![mark]) =~= text);
        }
    }
}

/// Joining two lists that are not empty puts the separator once between what they join to.
pub proof fn law_joined_lists(a: Seq<Seq<char>>, b: Seq<Seq<char>>, between: Seq<char>)
    requires
        a.len() > 0,
        b.len() > 0,
    ensures
        joined(a + b, between) == joined(a, between) + between + joined(b, between),
    decreases b.len(),
{
    let all = a + b;
    if b.len() == 1 {
        assert(all.drop_last() =~= a);
        assert(joined(all, between) =~= joined(a, between) + between + joined(b, between));
    } else {
        let rest = b.drop_last();
        law_joined_lists(a, rest, between);
        assert(all.drop_last() =~= a + rest);
        assert(all.last() == b.last());
        assert(joined(all, between) =~= joined(a, between) + between + joined(b, between));
    }
}

/// A list of one text joins to that text, and the empty list to nothing.
pub proof fn law_joined_one(text: Seq<char>, between: Seq<char>)
    ensures
        joined(seq![text], between) == text,
        joined(Seq::empty(), between).len() == 0,
{
}

/// Lowering changes the case of each ASCII letter and nothing else.
pub proof fn law_lowered_by_character(text: Seq<char>, i: int)
    requires
        0 <= i < text.len(),
    ensures
        ascii_lowered(text).len() == text.len(),
        'A' <= text[i] && text[i] <= 'Z' ==> ascii_lowered(text)[i] as u32 == text[i] as u32 + 32,
        !('A' <= text[i] && text[i] <= 'Z') ==> ascii_lowered(text)[i] == text[i],
{
}

/// The number that a row of decimal digits stands for.
pub open spec fn number_of(digits: Seq<char>) -> nat
    decreases digits.len(),
{
    if digits.len() == 0 {
        0
    } else {
        (10 * number_of(digits.drop_last()) + (digits.last() as nat - '0' as nat)) as nat
    }
}

/// The decimal notation of a number holds digits alone, has no leading zero and reads as that number.
pub proof fn law_decimal_reads_back(n: nat)
    ensures
        decimal(n).len() > 0,
        forall|i: int| 0 <= i < decimal(n).len() ==> '0' <= #[trigger] decimal(n)[i] && decimal(n)[i] <= '9',
        n > 0 ==> decimal(n)[0] != '0',
        number_of(decimal(n)) == n,
    decreases n,
{
    if n < 10 {
        assert(decimal(n).drop_last() =~= Seq::<char>::empty());
        assert(number_of(Seq::<char>::empty()) == 0);
    } else {
        law_decimal_reads_back(n / 10);
        assert(decimal(n).drop_last() =~= decimal(n / 10));
        assert(decimal(n).last() as nat == '0' as nat + n % 10);
    }
}

/// A negative number is its opposite with a minus sign in front.
pub proof fn law_minus_sign(n: int)
    requires
        n != 0,
    ensures
        n < 0 ==> signed_decimal(n).len() > 0 && signed_decimal(n)[0] == '-' && number_of(
            signed_decimal(n).skip(1),
        ) == -n,
        n > 0 ==> signed_decimal(n)[0] != '-' && number_of(signed_decimal(n)) == n,
{
    reveal_strlit("-");
    if n < 0 {
        law_decimal_reads_back((-n) as nat);
        assert(signed_decimal(n).skip(1) =~= decimal((-n) as nat));
    } else {
        law_decimal_reads_back(n as nat);
    }
}

proof fn lemma_part_without_mark(text: Seq<char>, mark: char)
    requires
        !text.contains(mark),
    ensures
        parts(text, mark) == seq![text],
    decreases text.len(),
{
    if text.len() > 0 {
        let rest = text.drop_last();
        assert forall|k: int| 0 <= k < rest.len() implies #[trigger] rest[k] != mark by {
            assert(text[k] == rest[k]);
            assert(text.contains(text[k]));
        }
        lemma_part_without_mark(rest, mark);
        assert(text.last() == text[text.len() - 1]);
        assert(text.contains(text.last()));
        assert(rest.push(text.last()) =~= text);
        assert(parts(text, mark) =~= seq![text]);
    } else {
        assert(text =~= Seq::<char>::empty());
    }
}

proof fn lemma_parts_with_one_more(text: Seq<char>, mark: char, last: Seq<char>)
    requires
        !last.contains(mark),
    ensures
        parts(text.push(mark) + last, mark) == parts(text, mark).push(last),
    decreases last.len(),
{
    let whole = text.push(mark) + last;
    if last.len() == 0 {
        assert(whole.drop_last() =~= text);
        assert(whole.last() == mark);
        assert(last =~= Seq::<char>::empty());
    } else {
        let rest = last.drop_last();
        assert forall|k: int| 0 <= k < rest.len() implies #[trigger] rest[k] != mark by {
            assert(last[k] == rest[k]);
            assert(last.contains(last[k]));
        }
        lemma_parts_with_one_more(text, mark, rest);
        assert(whole.drop_last() =~= text.push(mark) + rest);
        assert(last.contains(last[last.len() - 1]));
        assert(rest.push(last.last()) =~= last);
        assert(parts(whole, mark) =~= parts(text, mark).push(last));
    }
}

/// Texts without the mark are the parts of what they join to with the mark between them.
pub proof fn law_parts_undo_joining(list: Seq<Seq<char>>, mark: char)
    requires
        list.len() > 0,
        forall|i: int| 0 <= i < list.len() ==> !(#[trigger] list[i]).contains(mark),
    ensures
        parts(joined(list, seq![mark]), mark) == list,
    decreases list.len(),
{
    if list.len() == 1 {
        lemma_part_without_mark(list[0], mark);
        assert(list =~= seq![list[0]]);
    } else {
        let rest = list.drop_last();
        assert forall|i: int| 0 <= i < rest.len() implies !(#[trigger] rest[i]).contains(mark) by {
            assert(rest[i] == list[i]);
        }
        law_parts_undo_joining(rest, mark);
        assert(!list[list.len() - 1].contains(mark));
        lemma_parts_with_one_more(joined(rest, seq![mark]), mark, list.last());
        assert(joined(list, seq![mark]) =~= joined(rest, seq![mark]).push(mark) + list.last());
        assert(rest.push(list.last()) =~= list);
    }
}

/// The character models of a list come one for each string, in their order.
pub proof fn law_texts_one_by_one(list: Seq<String>, i: int)
    requires
        0 <= i < list.len(),
    ensures
        texts(list).len() == list.len(),
        texts(list)[i] == list[i]@,
{
}

} // verus!
