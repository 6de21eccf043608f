//! Structured payloads of log lines, and the text found in them by a dotted path.

use crate::text;
use jaq_json::Val;
use serde_json::Value;
use vstd::prelude::*;

verus! {

/// A JSON value of `serde_json`.
#[verifier::external_type_specification]
#[verifier::external_body]
pub struct ExValue(serde_json::Value);

/// A JSON value of `jaq_json`.
#[verifier::external_type_specification]
#[verifier::external_body]
pub struct ExVal(jaq_json::Val);

/// The error type of `jaq_core`, which the operators of `jaq_json::Val` speak of.
#[verifier::external_type_specification]
#[verifier::external_body]
#[verifier::reject_recursive_types(V)]
pub struct ExJaqError<V>(jaq_core::Error<V>);

/// Whether `serde_json::from_str` reads `text` as a `serde_json::Value`.
pub uninterp spec fn json_parses(text: Seq<char>) -> bool;

/// The string that `serde_json::Value::pointer` finds at `pointer` in the value read from `text`.
pub uninterp spec fn json_text_at(text: Seq<char>, pointer: Seq<char>) -> Option<Seq<char>>;

/// Whether `serde_json::from_str` reads `text` as a `jaq_json::Val`.
pub uninterp spec fn jaq_parses(text: Seq<char>) -> bool;

/// Whether `serde_json::from_value` turns the `serde_json::Value` read from `text` into a
/// `jaq_json::Val`.
pub uninterp spec fn jaq_converts(text: Seq<char>) -> bool;

/// Whether the object found by all of `path` but its last key has a field under that key. The
/// walk starts at the value read from `text`, by way of `serde_json::Value` if `converted`.
pub uninterp spec fn jaq_has_field(text: Seq<char>, converted: bool, path: Seq<Seq<char>>) -> bool;

/// The string that stands at `path`, if the value there is one and is valid UTF-8.
pub uninterp spec fn jaq_text_at(text: Seq<char>, converted: bool, path: Seq<Seq<char>>) -> Option<
    Seq<char>,
>;

/// The value at `path` as `jaq_json` displays it.
pub uninterp spec fn jaq_shown(text: Seq<char>, converted: bool, path: Seq<Seq<char>>) -> Seq<char>;

/// `serde_json::Value::clone` copies the value; nothing else is stated of it.
pub assume_specification[ <serde_json::Value as Clone>::clone ](
    value: &serde_json::Value,
) -> serde_json::Value
;

/// `jaq_json::Val::clone` copies the value; nothing else is stated of it.
pub assume_specification[ <jaq_json::Val as Clone>::clone ](value: &jaq_json::Val) -> jaq_json::Val
;

/// A value of `serde_json` together with the text it was read from.
///
/// The fields are private and only [`JsonDoc::parse`], [`JsonDoc::null`] and `clone` make one, so
/// `value` is always what `text` reads as.
pub struct JsonDoc {
    text: String,
    value: Value,
}

impl View for JsonDoc {
    type V = Seq<char>;

    closed spec fn view(&self) -> Seq<char> {
        self.text@
    }
}

impl JsonDoc {
    /// `serde_json::from_str` reads a text as a `serde_json::Value`.
    #[verifier::external_body]
    pub(crate) fn parse(text: &str) -> (doc: Option<JsonDoc>)
        ensures
            doc is Some == json_parses(text@),
            doc matches Some(d) ==> d@ == text@,
    {
        match serde_json::from_str::<Value>(text) {
            Ok(value) => Some(JsonDoc { text: text.to_owned(), value }),
            Err(_) => None,
        }
    }

    /// `serde_json::Value::Null` is what the text `null` reads as.
    #[verifier::external_body]
    pub(crate) fn null() -> (doc: JsonDoc)
        ensures
            doc@ == "null"@,
    {
        JsonDoc { text: "null".to_owned(), value: Value::Null }
    }

    /// The value that was read.
    pub closed spec fn held(&self) -> Value {
        self.value
    }

    /// The value that was read.
    pub(crate) fn value(&self) -> (value: &Value)
        ensures
            *value == self.held(),
    {
        &self.value
    }

    /// `serde_json::Value::pointer` looks a value up; `as_str` gives the string that it is.
    #[verifier::external_body]
    pub(crate) fn text_at(&self, pointer: &str) -> (found: Option<String>)
        ensures
            match found {
                Some(s) => json_text_at(self@, pointer@) == Some(s@),
                None => json_text_at(self@, pointer@) is None,
            },
    {
        self.value.pointer(pointer).and_then(|v| v.as_str()).map(|s| s.to_owned())
    }
}

impl Clone for JsonDoc {
    fn clone(&self) -> (copy: Self)
        ensures
            copy@ == self@,
    {
        JsonDoc { text: self.text.clone(), value: self.value.clone() }
    }
}

/// A value of `jaq_json` together with where it was found: the text that was read, whether it was
/// read as a `serde_json::Value` first, and the object keys that led to it.
///
/// The fields are private and only [`JaqDoc::parse`], [`JaqDoc::from_json`], [`JaqDoc::field`] and
/// `clone` make one, so `value` is always what stands there.
pub struct JaqDoc {
    text: String,
    converted: bool,
    path: Vec<String>,
    value: Val,
}

impl JaqDoc {
    /// The text that was read.
    pub closed spec fn source(&self) -> Seq<char> {
        self.text@
    }

    /// Whether the text was read as a `serde_json::Value` first.
    pub closed spec fn by_conversion(&self) -> bool {
        self.converted
    }

    /// The object keys that lead to the value.
    pub closed spec fn place(&self) -> Seq<Seq<char>> {
        text::texts(self.path@)
    }

    /// `serde_json::from_str` reads a text as a `jaq_json::Val`.
    #[verifier::external_body]
    pub(crate) fn parse(text: &str) -> (doc: Option<JaqDoc>)
        ensures
            doc is Some == jaq_parses(text@),
            doc matches Some(d) ==> {
                &&& d.source() == text@
                &&& !d.by_conversion()
                &&& d.place() == Seq::<Seq<char>>::empty()
            },
    {
        match serde_json::from_str::<Val>(text) {
            Ok(value) => Some(JaqDoc { text: text.to_owned(), converted: false, path: Vec::new(), value }),
            Err(_) => None,
        }
    }

    /// `serde_json::from_value` turns a `serde_json::Value` into a `jaq_json::Val`.
    #[verifier::external_body]
    pub(crate) fn from_json(doc: &JsonDoc) -> (converted: Option<JaqDoc>)
        ensures
            converted is Some == jaq_converts(doc@),
            converted matches Some(d) ==> {
                &&& d.source() == doc@
                &&& d.by_conversion()
                &&& d.place() == Seq::<Seq<char>>::empty()
            },
    {
        match serde_json::from_value::<Val>(doc.value.clone()) {
            Ok(value) => Some(
                JaqDoc { text: doc.text.clone(), converted: true, path: Vec::new(), value },
            ),
            Err(_) => None,
        }
    }

    /// The map of a `jaq_json::Val::Obj` gives the value under a string key.
    #[verifier::external_body]
    pub(crate) fn field(&self, key: &str) -> (found: Option<JaqDoc>)
        ensures
            found is Some == jaq_has_field(
                self.source(),
                self.by_conversion(),
                self.place().push(key@),
            ),
            found matches Some(d) ==> {
                &&& d.source() == self.source()
                &&& d.by_conversion() == self.by_conversion()
                &&& d.place() == self.place().push(key@)
            },
    {
        let mut path = self.path.clone();
        path.push(key.to_owned());
        let found = match &self.value {
            Val::Obj(map) => map.get(&Val::utf8_str(key.to_owned())),
            _ => None,
        };
        found.map(|v| JaqDoc { text: self.text.clone(), converted: self.converted, path, value: v.clone() })
    }

    /// The bytes of a `jaq_json::Val::TStr`, read by `std::str::from_utf8`.
    #[verifier::external_body]
    pub(crate) fn as_text(&self) -> (found: Option<String>)
        ensures
            match found {
                Some(s) => jaq_text_at(self.source(), self.by_conversion(), self.place()) == Some(s@),
                None => jaq_text_at(self.source(), self.by_conversion(), self.place()) is None,
            },
    {
        match &self.value {
            Val::TStr(bytes) => std::str::from_utf8(bytes.as_ref()).ok().map(|s| s.to_owned()),
            _ => None,
        }
    }

    /// `jaq_json::Val` displays itself as JSON text.
    #[verifier::external_body]
    pub(crate) fn shown(&self) -> (shown: String)
        ensures
            shown@ == jaq_shown(self.source(), self.by_conversion(), self.place()),
    {
        format!("{}", self.value)
    }

    /// The value that stands at the place.
    pub closed spec fn held(&self) -> Val {
        self.value
    }

    /// The value that stands at the place.
    pub(crate) fn value(&self) -> (value: &Val)
        ensures
            *value == self.held(),
    {
        &self.value
    }
}

impl Clone for JaqDoc {
    fn clone(&self) -> (copy: Self)
        ensures
            copy.source() == self.source(),
            copy.by_conversion() == self.by_conversion(),
            copy.place() == self.place(),
    {
        let mut path: Vec<String> = Vec::new();
        let mut i: usize = 0;
        while i < self.path.len()
            invariant
                i <= self.path.len(),
                path@ == self.path@.take(i as int),
            decreases self.path.len() - i,
        {
            path.push(self.path[i].clone());
            assert(self.path@.take(i + 1) == self.path@.take(i as int).push(self.path@[i as int]));
            i += 1;
        }
        assert(path@ == self.path@);
        JaqDoc {
            text: self.text.clone(),
            converted: self.converted,
            path,
            value: self.value.clone(),
        }
    }
}

/// `text` with each `/` replaced by `~1`.
pub open spec fn slash_escaped(text: Seq<char>) -> Seq<char>
    decreases text.len(),
{
    if text.len() == 0 {
        Seq::empty()
    } else if text.last() == '/' {
        slash_escaped(text.drop_last()) + seq!['~', '1']
    } else {
        slash_escaped(text.drop_last()).push(text.last())
    }
}

/// The JSON pointer that a dotted path stands for.
pub open spec fn pointer_of(path: Seq<char>) -> Seq<char> {
    if path.len() == 0 {
        Seq::empty()
    } else {
        seq!['/'] + text::joined(
            text::parts(path, '.').map_values(|p: Seq<char>| slash_escaped(p)),
            seq!['/'],
        )
    }
}

/// The parts of a dotted path that are not empty.
pub open spec fn path_keys(path: Seq<char>) -> Seq<Seq<char>> {
    text::parts(path, '.').filter(|p: Seq<char>| p.len() > 0)
}

/// Where `keys` lead from `from`, if every step finds an object with that field.
pub open spec fn jaq_walk(
    source: Seq<char>,
    converted: bool,
    from: Seq<Seq<char>>,
    keys: Seq<Seq<char>>,
) -> Option<Seq<Seq<char>>>
    decreases keys.len(),
{
    if keys.len() == 0 {
        Some(from)
    } else if jaq_has_field(source, converted, from.push(keys[0])) {
        jaq_walk(source, converted, from.push(keys[0]), keys.skip(1))
    } else {
        None
    }
}

/// The string that `keys` lead to from `from`.
pub open spec fn jaq_found(
    source: Seq<char>,
    converted: bool,
    from: Seq<Seq<char>>,
    keys: Seq<Seq<char>>,
) -> Option<Seq<char>> {
    match jaq_walk(source, converted, from, keys) {
        Some(place) => jaq_text_at(source, converted, place),
        None => None,
    }
}

/// Replaces each `/` by `~1`.
fn escape_slashes(part: &str) -> (escaped: String)
    ensures
        escaped@ == slash_escaped(part@),
{
    let chars = text::to_chars(part);
    let mut escaped: String = String::new();
    let mut i: usize = 0;
    while i < chars.len()
        invariant
            i <= chars.len(),
            chars@ == part@,
            escaped@ == slash_escaped(part@.take(i as int)),
        decreases chars.len() - i,
    {
        assert(part@.take(i + 1).drop_last() == part@.take(i as int));
        if chars[i] == '/' {
            escaped.push('~');
            escaped.push('1');
            assert(escaped@ == slash_escaped(part@.take(i as int)) + seq!['~', '1']);
        } else {
            escaped.push(chars[i]);
        }
        i += 1;
    }
    assert(part@.take(part@.len() as int) == part@);
    escaped
}

/// The JSON pointer that a dotted path stands for.
pub fn json_pointer_from_dot_path(path: &str) -> (pointer: String)
    ensures
        pointer@ == pointer_of(path@),
{
    if path.is_empty() {
        return String::new();
    }
    let list = text::split(path, '.');
    let mut escaped: Vec<String> = Vec::new();
    let mut i: usize = 0;
    while i < list.len()
        invariant
            i <= list.len(),
            escaped.len() == i,
            forall|j: int| 0 <= j < i ==> (#[trigger] escaped@[j])@ == slash_escaped(list@[j]@),
        decreases list.len() - i,
    {
        escaped.push(escape_slashes(list[i].as_str()));
        i += 1;
    }
    proof {
        reveal_strlit("/");
        assert("/"@ =~= seq!['/']);
        assert(text::texts(escaped@) =~= text::parts(path@, '.').map_values(
            |p: Seq<char>| slash_escaped(p),
        )) by {
            assert forall|j: int| 0 <= j < escaped.len() implies text::texts(escaped@)[j]
                == slash_escaped(text::parts(path@, '.')[j]) by {
                assert(text::texts(list@)[j] == list@[j]@);
            }
        }
    }
    "/".to_owned().concat(text::join(&escaped, "/").as_str())
}

/// The keys of a dotted path; empty parts are passed over.
pub fn jaq_dot_path_keys(path: &str) -> (keys: Vec<String>)
    ensures
        text::texts(keys@) == path_keys(path@),
{
    let list = text::split(path, '.');
    let mut keys: Vec<String> = Vec::new();
    let mut i: usize = 0;
    let ghost whole = text::parts(path@, '.');
    let ghost kept = |p: Seq<char>| p.len() > 0;
    proof {
        reveal(Seq::filter);
    }
    while i < list.len()
        invariant
            i <= list.len(),
            whole == text::texts(list@),
            kept == (|p: Seq<char>| p.len() > 0),
            text::texts(keys@) == whole.take(i as int).filter(kept),
        decreases list.len() - i,
    {
        proof {
            reveal(Seq::filter);
            assert(whole.take(i + 1).drop_last() == whole.take(i as int));
            assert(whole[i as int] == list@[i as int]@);
        }
        if !list[i].as_str().is_empty() {
            let ghost earlier = text::texts(keys@);
            keys.push(list[i].clone());
            assert(text::texts(keys@) == earlier.push(list@[i as int]@));
        }
        i += 1;
    }
    assert(whole.take(whole.len() as int) == whole);
    keys
}

/// Follows `keys` through nested objects.
fn val_dot_path_with_keys(doc: &JaqDoc, keys: &Vec<String>) -> (found: Option<JaqDoc>)
    ensures
        match found {
            Some(d) => {
                &&& d.source() == doc.source()
                &&& d.by_conversion() == doc.by_conversion()
                &&& jaq_walk(doc.source(), doc.by_conversion(), doc.place(), text::texts(keys@))
                    == Some(d.place())
            },
            None => jaq_walk(doc.source(), doc.by_conversion(), doc.place(), text::texts(keys@)) is None,
        },
{
    let mut current = doc.clone();
    let mut i: usize = 0;
    let ghost all = text::texts(keys@);
    assert(all.skip(0) == all);
    while i < keys.len()
        invariant
            i <= keys.len(),
            all == text::texts(keys@),
            current.source() == doc.source(),
            current.by_conversion() == doc.by_conversion(),
            jaq_walk(doc.source(), doc.by_conversion(), doc.place(), all) == jaq_walk(
                doc.source(),
                doc.by_conversion(),
                current.place(),
                all.skip(i as int),
            ),
        decreases keys.len() - i,
    {
        assert(all.skip(i as int)[0] == keys@[i as int]@);
        assert(all.skip(i as int).skip(1) == all.skip(i + 1));
        match current.field(keys[i].as_str()) {
            Some(next) => {
                current = next;
            },
            None => {
                return None;
            },
        }
        i += 1;
    }
    Some(current)
}

/// A line read as JSON, in the value type that the later stages want.
pub enum ParsedJson {
    Serde(JsonDoc),
    Jaq(JaqDoc),
}

impl ParsedJson {
    /// The string at a dotted path. A `serde_json` value is asked by JSON pointer; a `jaq_json`
    /// value is walked key by key, passing over empty parts.
    pub open spec fn found_at(&self, dot_path: Seq<char>) -> Option<Seq<char>> {
        match self {
            ParsedJson::Serde(doc) => json_text_at(doc@, pointer_of(dot_path)),
            ParsedJson::Jaq(doc) => jaq_found(
                doc.source(),
                doc.by_conversion(),
                doc.place(),
                path_keys(dot_path),
            ),
        }
    }

    /// The string at a dotted path, if there is one.
    pub fn level_str_at_dot_path(&self, dot_path: &str) -> (level: Option<String>)
        ensures
            match level {
                Some(s) => self.found_at(dot_path@) == Some(s@),
                None => self.found_at(dot_path@) is None,
            },
    {
        self.level_str_at_dot_path_with_serde_pointer(dot_path, None, None)
    }

    /// The string at a dotted path whose pointer or keys may have been worked out before.
    pub fn level_str_at_dot_path_with_serde_pointer(
        &self,
        dot_path: &str,
        serde_pointer: Option<&str>,
        jaq_path_keys: Option<&Vec<String>>,
    ) -> (level: Option<String>)
        ensures
            match self {
                ParsedJson::Serde(doc) => {
                    let pointer = match serde_pointer {
                        Some(p) => p@,
                        None => pointer_of(dot_path@),
                    };
                    match level {
                        Some(s) => json_text_at(doc@, pointer) == Some(s@),
                        None => json_text_at(doc@, pointer) is None,
                    }
                },
                ParsedJson::Jaq(doc) => {
                    let keys = match jaq_path_keys {
                        Some(k) => text::texts(k@),
                        None => path_keys(dot_path@),
                    };
                    let found = jaq_found(doc.source(), doc.by_conversion(), doc.place(), keys);
                    match level {
                        Some(s) => found == Some(s@),
                        None => found is None,
                    }
                },
            },
    {
        match self {
            ParsedJson::Serde(doc) => match serde_pointer {
                Some(pointer) => doc.text_at(pointer),
                None => doc.text_at(json_pointer_from_dot_path(dot_path).as_str()),
            },
            ParsedJson::Jaq(doc) => {
                let found = match jaq_path_keys {
                    Some(keys) => val_dot_path_with_keys(doc, keys),
                    None => val_dot_path_with_keys(doc, &jaq_dot_path_keys(dot_path)),
                };
                match found {
                    Some(value) => value.as_text(),
                    None => None,
                }
            },
        }
    }

    /// The payload as a `serde_json` value; `null` where what `jaq_json` shows does not read back.
    pub fn to_serde_value(&self) -> (doc: JsonDoc)
        ensures
            doc@ == match self {
                ParsedJson::Serde(d) => d@,
                ParsedJson::Jaq(d) => {
                    let shown = jaq_shown(d.source(), d.by_conversion(), d.place());
                    if json_parses(shown) {
                        shown
                    } else {
                        "null"@
                    }
                },
            },
    {
        match self {
            ParsedJson::Serde(d) => d.clone(),
            ParsedJson::Jaq(d) => match JsonDoc::parse(d.shown().as_str()) {
                Some(doc) => doc,
                None => JsonDoc::null(),
            },
        }
    }

    /// The payload as a `jaq_json` value; nothing where a `serde_json` value does not convert.
    pub fn to_jaq_val(&self) -> (doc: Option<JaqDoc>)
        ensures
            match self {
                ParsedJson::Jaq(d) => doc matches Some(c) && c.source() == d.source()
                    && c.by_conversion() == d.by_conversion() && c.place() == d.place(),
                ParsedJson::Serde(d) => {
                    &&& doc is Some == jaq_converts(d@)
                    &&& doc matches Some(c) ==> c.source() == d@ && c.by_conversion() && c.place()
                        == Seq::<Seq<char>>::empty()
                },
            },
    {
        match self {
            ParsedJson::Jaq(d) => Some(d.clone()),
            ParsedJson::Serde(d) => JaqDoc::from_json(d),
        }
    }
}

/// Looking up with the pointer and the keys worked out beforehand finds what the dotted path
/// finds.
pub proof fn law_precomputed_lookup_agrees(payload: ParsedJson, dot_path: Seq<char>)
    ensures
        payload matches ParsedJson::Serde(doc) ==> payload.found_at(dot_path) == json_text_at(
            doc@,
            pointer_of(dot_path),
        ),
        payload matches ParsedJson::Jaq(doc) ==> payload.found_at(dot_path) == jaq_found(
            doc.source(),
            doc.by_conversion(),
            doc.place(),
            path_keys(dot_path),
        ),
{
}

/// Escaping replaces each slash by `~1`, wherever it stands, and keeps every other character.
pub proof fn law_slashes_are_escaped(before: Seq<char>, c: char, after: Seq<char>)
    ensures
        slash_escaped(before.push(c) + after) == slash_escaped(before) + (if c == '/' {
            seq!['~', '1']
        } else {
            seq![c]
        }) + slash_escaped(after),
    decreases after.len(),
{
    let whole = before.push(c) + after;
    let mid = if c == '/' {
        seq!['~', '1']
    } else {
        seq![c]
    };
    if after.len() == 0 {
        assert(whole.drop_last() =~= before);
        assert(whole.last() == c);
        assert(slash_escaped(whole) =~= slash_escaped(before) + mid + slash_escaped(after));
    } else {
        let rest = after.drop_last();
        law_slashes_are_escaped(before, c, rest);
        assert(whole.drop_last() =~= before.push(c) + rest);
        assert(whole.last() == after.last());
        assert(slash_escaped(whole) =~= slash_escaped(before) + mid + slash_escaped(after));
    }
}

proof fn lemma_nothing_to_escape(text: Seq<char>)
    requires
        !text.contains('/'),
    ensures
        slash_escaped(text) == text,
    decreases text.len(),
{
    if text.len() > 0 {
        let rest = text.drop_last();
        assert forall|k: int| 0 <= k < rest.len() implies #[trigger] rest[k] != '/' by {
            assert(text[k] == rest[k]);
            assert(text.contains(text[k]));
        }
        lemma_nothing_to_escape(rest);
        assert(text.contains(text[text.len() - 1]));
        assert(rest.push(text.last()) =~= text);
    } else {
        assert(slash_escaped(text) =~= text);
    }
}

proof fn lemma_filter_keeps_all(list: Seq<Seq<char>>)
    requires
        forall|i: int| 0 <= i < list.len() ==> (#[trigger] list[i]).len() > 0,
    ensures
        list.filter(|p: Seq<char>| p.len() > 0) == list,
    decreases list.len(),
{
    reveal(Seq::filter);
    if list.len() > 0 {
        let rest = list.drop_last();
        assert forall|i: int| 0 <= i < rest.len() implies (#[trigger] rest[i]).len() > 0 by {
            assert(rest[i] == list[i]);
        }
        lemma_filter_keeps_all(rest);
        assert(list[list.len() - 1].len() > 0);
        assert(rest.push(list.last()) =~= list);
    }
}

/// A dotted path of keys without dots and slashes stands for the pointer with a slash in front of each
/// key, and for those keys.
pub proof fn law_dotted_path_names_its_keys(keys: Seq<Seq<char>>)
    requires
        keys.len() > 0,
        forall|i: int|
            0 <= i < keys.len() ==> {
                let key = #[trigger] keys[i];
                key.len() > 0 && !key.contains('.') && !key.contains('/')
            },
    ensures
        pointer_of(text::joined(keys, seq!['.'])) == seq!['/'] + text::joined(keys, seq!['/']),
        path_keys(text::joined(keys, seq!['.'])) == keys,
{
    let path = text::joined(keys, seq!['.']);
    assert forall|i: int| 0 <= i < keys.len() implies !(#[trigger] keys[i]).contains('.') by {}
    text::law_parts_undo_joining(keys, '.');
    let escaped = keys.map_values(|p: Seq<char>| slash_escaped(p));
    assert forall|i: int| 0 <= i < keys.len() implies #[trigger] escaped[i] == keys[i] by {
        lemma_nothing_to_escape(keys[i]);
    }
    assert(escaped =~= keys);
    assert(keys[0].len() > 0);
    if path.len() == 0 {
        assert(text::parts(path, '.') =~= seq![Seq::<char>::empty()]);
        assert(keys[0].len() == 0);
    }
    assert forall|i: int| 0 <= i < keys.len() implies (#[trigger] keys[i]).len() > 0 by {}
    lemma_filter_keeps_all(keys);
}

/// Walking finds a place exactly if each key in turn names a field of what the ones before it led to;
/// the place is then the one where it began with all the keys behind it.
pub proof fn law_walk_takes_every_key(
    source: Seq<char>,
    converted: bool,
    from: Seq<Seq<char>>,
    keys: Seq<Seq<char>>,
)
    ensures
        match jaq_walk(source, converted, from, keys) {
            Some(place) => place == from + keys && forall|n: int|
                0 < n <= keys.len() ==> jaq_has_field(
                    source,
                    converted,
                    #[trigger] (from + keys.take(n)),
                ),
            None => exists|n: int|
                0 < n <= keys.len() && !jaq_has_field(
                    source,
                    converted,
                    #[trigger] (from + keys.take(n)),
                ),
        },
    decreases keys.len(),
{
    if keys.len() == 0 {
        assert(from + keys =~= from);
    } else {
        let next = from.push(keys[0]);
        let rest = keys.skip(1);
        assert(from + keys.take(1) =~= next);
        assert(next + rest =~= from + keys);
        if jaq_has_field(source, converted, next) {
            law_walk_takes_every_key(source, converted, next, rest);
            match jaq_walk(source, converted, from, keys) {
                Some(place) => {
                    assert forall|n: int| 0 < n <= keys.len() implies jaq_has_field(
                        source,
                        converted,
                        #[trigger] (from + keys.take(n)),
                    ) by {
                        if n > 1 {
                            assert(from + keys.take(n) =~= next + rest.take(n - 1));
                        }
                    }
                },
                None => {
                    let n = choose|n: int|
                        0 < n <= rest.len() && !jaq_has_field(
                            source,
                            converted,
                            #[trigger] (next + rest.take(n)),
                        );
                    assert(from + keys.take(n + 1) =~= next + rest.take(n));
                },
            }
        } else {
            assert(!jaq_has_field(source, converted, from + keys.take(1)));
        }
    }
}

proof fn lemma_filter_holds(list: Seq<Seq<char>>, key: Seq<char>)
    ensures
        list.filter(|p: Seq<char>| p.len() > 0).contains(key) <==> key.len() > 0 && list.contains(key),
    decreases list.len(),
{
    reveal(Seq::filter);
    let kept = |p: Seq<char>| p.len() > 0;
    let all = list.filter(kept);
    if list.len() > 0 {
        let rest = list.drop_last();
        let before = rest.filter(kept);
        lemma_filter_holds(rest, key);
        if all.contains(key) {
            let i = choose|i: int| 0 <= i < all.len() && all[i] == key;
            if i < before.len() {
                assert(before[i] == key);
                assert(rest.contains(key));
                let j = choose|j: int| 0 <= j < rest.len() && rest[j] == key;
                assert(list[j] == key);
            } else {
                assert(list[list.len() - 1] == key);
            }
        }
        if key.len() > 0 && list.contains(key) {
            let j = choose|j: int| 0 <= j < list.len() && list[j] == key;
            if j < rest.len() {
                assert(rest[j] == key);
                let i = choose|i: int| 0 <= i < before.len() && before[i] == key;
                assert(all[i] == key);
            } else {
                assert(all[before.len() as int] == key);
            }
        }
    }
}

/// The keys of a dotted path are its parts without the empty ones: no key is empty, and every part
/// that is not empty is a key.
pub proof fn law_empty_parts_are_passed_over(path: Seq<char>, key: Seq<char>)
    ensures
        path_keys(path).contains(key) <==> key.len() > 0 && text::parts(path, '.').contains(key),
{
    lemma_filter_holds(text::parts(path, '.'), key);
}

} // verus!
