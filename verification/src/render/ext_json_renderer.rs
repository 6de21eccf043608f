//! Extended JSON: one object an event, with node, labels and a message that stays JSON if it is.

use crate::clock;
use crate::order::Keyed;
use crate::render::color;
use crate::render::json_text;
use crate::render::json_text::{JsonMember, JsonObject};
use crate::render::LineFormatter;
use crate::source::parsed_json;
use crate::source::parsed_json::JsonDoc;
use crate::source::{Labels, LogEvent};
use vstd::prelude::*;

verus! {

/// Writes an extended JSON object an event.
#[derive(Debug)]
pub struct ExtJsonLineFormatter {
    pub color_enabled: bool,
    pub all_namespaces: bool,
    pub pretty: bool,
}

/// `message` without the line feeds at its end.
pub open spec fn without_line_feeds(message: Seq<char>) -> Seq<char>
    decreases message.len(),
{
    if message.len() > 0 && message.last() == '\n' {
        without_line_feeds(message.drop_last())
    } else {
        message
    }
}

/// `message` without the line feeds at its end.
pub fn trim_line_feeds(message: &str) -> (rest: &str)
    ensures
        rest@ == without_line_feeds(message@),
{
    let mut end: usize = message.unicode_len();
    assert(message@.take(end as int) =~= message@);
    while end > 0 && message.get_char(end - 1) == '\n'
        invariant
            end <= message@.len(),
            without_line_feeds(message@.take(end as int)) == without_line_feeds(message@),
        decreases end,
    {
        assert(message@.take(end as int).drop_last() =~= message@.take(end - 1));
        end -= 1;
    }
    assert(message@.subrange(0, end as int) =~= message@.take(end as int));
    message.substring_char(0, end)
}

/// The message in the object: the JSON value that it reads as, or else a string.
pub open spec fn encoded_message(message: Seq<char>) -> JsonMember {
    let trimmed = without_line_feeds(message);
    if parsed_json::json_parses(trimmed) {
        JsonMember::Parsed(trimmed)
    } else {
        JsonMember::Text(trimmed)
    }
}

/// The labels as members of an object.
pub open spec fn label_members(labels: Labels) -> Map<Seq<char>, JsonMember> {
    Map::new(
        |name: Seq<char>| labels.0@.contains_key(seq![name]),
        |name: Seq<char>| JsonMember::Text(labels.0@[seq![name]]@),
    )
}

/// The members of the object for an event.
pub open spec fn ext_members(event: LogEvent, color_enabled: bool, all_namespaces: bool) -> Map<
    Seq<char>,
    JsonMember,
> {
    let shade = |shown: Seq<char>|
        JsonMember::Text(color::colored(shown, event.palette_index, color_enabled));
    let scoped = if all_namespaces {
        json_text::no_members().insert("namespace"@, shade(event.source.namespace@))
    } else {
        json_text::no_members()
    };
    let core = scoped.insert("pod"@, shade(event.source.pod@)).insert(
        "container"@,
        shade(event.source.container@),
    ).insert("message"@, encoded_message(event.message@)).insert(
        "timestamp"@,
        JsonMember::Text(clock::rfc3339_text(event.timestamp.secs, event.timestamp.nanos)),
    );
    let placed = match event.source.node {
        Some(node) => core.insert("node"@, JsonMember::Text(node@)),
        None => core,
    };
    let labelled = if event.source.labels.0@.dom().len() > 0 {
        placed.insert("labels"@, JsonMember::Object(label_members(*event.source.labels)))
    } else {
        placed
    };
    match event.level {
        Some(level) => labelled.insert("level"@, JsonMember::Text(level.shown())),
        None => labelled,
    }
}

/// Puts the message into the object.
fn insert_message(object: &mut JsonObject, message: &str)
    ensures
        final(object)@ == old(object)@.insert("message"@, encoded_message(message@)),
{
    let trimmed = trim_line_feeds(message);
    match JsonDoc::parse(trimmed) {
        Some(doc) => json_text::insert_parsed(object, "message", &doc),
        None => json_text::insert_text(object, "message", trimmed),
    }
}

/// The labels as an object.
fn labels_object(labels: &Labels) -> (object: JsonObject)
    requires
        labels.wf(),
    ensures
        object@ == label_members(*labels),
{
    let mut object = json_text::empty_object();
    let mut i: usize = 0;
    let n: usize = labels.0.len();
    while i < n
        invariant
            i <= n == labels.0.items().len(),
            labels.wf(),
            forall|name: Seq<char>| #[trigger]
                object@.contains_key(name) <==> exists|j: int|
                    0 <= j < i && (#[trigger] labels.0.items()[j]).0@ == name,
            forall|j: int| 0 <= j < i ==> object@[(#[trigger] labels.0.items()[j]).0@]
                == JsonMember::Text(labels.0.items()[j].1@),
        decreases n - i,
    {
        let entry = labels.0.entry(i);
        let ghost before = object@;
        json_text::insert_text(&mut object, entry.0.as_str(), entry.1.as_str());
        proof {
            assert forall|j: int| 0 <= j < i implies (#[trigger] labels.0.items()[j]).0@ != entry.0@ by {
                labels.0.lemma_entry(j);
                labels.0.lemma_entry(i as int);
                assert(labels.0.keys()[j] == labels.0.items()[j].0.key());
                assert(labels.0.keys()[i as int] == labels.0.items()[i as int].0.key());
            }
            assert forall|name: Seq<char>| #[trigger]
                object@.contains_key(name) implies exists|j: int|
                0 <= j < i + 1 && (#[trigger] labels.0.items()[j]).0@ == name by {
                if name == entry.0@ {
                    assert(labels.0.items()[i as int].0@ == name);
                } else {
                    assert(before.contains_key(name));
                }
            }
        }
        i += 1;
    }
    proof {
        let held = object@;
        assert forall|name: Seq<char>| #[trigger] held.contains_key(name) implies label_members(
            *labels,
        ).contains_key(name) && label_members(*labels)[name] == held[name] by {
            let j = choose|j: int| 0 <= j < n && (#[trigger] labels.0.items()[j]).0@ == name;
            labels.0.lemma_entry(j);
            assert(labels.0.items()[j].0.key() =~= seq![name]);
        }
        assert forall|name: Seq<char>| #[trigger]
            label_members(*labels).contains_key(name) implies held.contains_key(name) by {
            let j = labels.0.lemma_position(seq![name]);
            assert(labels.0.items()[j].0.key() =~= seq![labels.0.items()[j].0@]);
            assert(labels.0.items()[j].0@ == seq![name][0]);
        }
        assert(held =~= label_members(*labels));
    }
    object
}

/// The object for an event.
fn build_object(event: &LogEvent, color_enabled: bool, all_namespaces: bool) -> (object:
    JsonObject)
    requires
        event.wf(),
    ensures
        object@ == ext_members(*event, color_enabled, all_namespaces),
{
    let mut object = json_text::empty_object();
    let slot = event.palette_index;
    if all_namespaces {
        let namespace = color::colorize(event.source.namespace.as_str(), slot, color_enabled);
        json_text::insert_text(&mut object, "namespace", namespace.as_str());
    }
    let pod = color::colorize(event.source.pod.as_str(), slot, color_enabled);
    json_text::insert_text(&mut object, "pod", pod.as_str());
    let container = color::colorize(event.source.container.as_str(), slot, color_enabled);
    json_text::insert_text(&mut object, "container", container.as_str());
    insert_message(&mut object, &event.message);
    let timestamp = clock::to_rfc3339(event.timestamp);
    json_text::insert_text(&mut object, "timestamp", timestamp.as_str());
    match &event.source.node {
        Some(node) => json_text::insert_text(&mut object, "node", node.as_str()),
        None => {},
    }
    if !event.source.labels.is_empty() {
        let labels = labels_object(&event.source.labels);
        json_text::insert_object(&mut object, "labels", labels);
    }
    match &event.level {
        Some(level) => {
            let shown = level.to_shown();
            json_text::insert_text(&mut object, "level", shown.as_str());
        },
        None => {},
    }
    object
}

impl ExtJsonLineFormatter {
    /// The object that is written for an event.
    pub open spec fn written(&self, event: LogEvent) -> Seq<char> {
        let members = ext_members(event, self.color_enabled, self.all_namespaces);
        if self.pretty {
            json_text::json_object_pretty(members)
        } else {
            json_text::json_object_text(members)
        }
    }
}

impl LineFormatter for ExtJsonLineFormatter {
    open spec fn formats(&self, event: LogEvent, before: Seq<char>, after: Seq<char>) -> bool {
        &&& after == before + self.written(event) + "\n"@
        &&& json_text::reads_back(
            self.written(event),
            ext_members(event, self.color_enabled, self.all_namespaces),
        )
    }

    fn format_into(&self, event: &LogEvent, buf: &mut String) {
        let object = build_object(event, self.color_enabled, self.all_namespaces);
        let written = if self.pretty {
            json_text::write_object_pretty(&object)
        } else {
            json_text::write_object(&object)
        };
        buf.append(written.as_str());
        buf.append("\n");
    }
}

/// Reading an object back gives what the event holds: the namespace exactly in the form for all
/// namespaces, node and level exactly if the event has them, and the message as a string unless it
/// is JSON of another kind. It always reads back if the message is not JSON.
pub proof fn law_ext_json_reads_back(formatter: ExtJsonLineFormatter, event: LogEvent, line: Seq<char>)
    requires
        formatter.formats(event, Seq::empty(), line),
    ensures
        !parsed_json::json_parses(without_line_feeds(event.message@)) ==> parsed_json::json_parses(
            formatter.written(event),
        ),
        parsed_json::json_parses(formatter.written(event)) ==> {
            let found = |key: Seq<char>|
                parsed_json::json_text_at(formatter.written(event), json_text::member_pointer(key));
            let shade = |shown: Seq<char>|
                color::colored(shown, event.palette_index, formatter.color_enabled);
            &&& found("namespace"@) == if formatter.all_namespaces {
                Some(shade(event.source.namespace@))
            } else {
                None
            }
            &&& found("pod"@) == Some(shade(event.source.pod@))
            &&& found("container"@) == Some(shade(event.source.container@))
            &&& found("message"@) == json_text::member_text(encoded_message(event.message@))
            &&& found("timestamp"@) == Some(
                clock::rfc3339_text(event.timestamp.secs, event.timestamp.nanos),
            )
            &&& found("node"@) == match event.source.node {
                Some(node) => Some(node@),
                None => None,
            }
            &&& found("level"@) == match event.level {
                Some(level) => Some(level.shown()),
                None => None,
            }
        },
{
    reveal_strlit("namespace");
    reveal_strlit("pod");
    reveal_strlit("container");
    reveal_strlit("message");
    reveal_strlit("timestamp");
    reveal_strlit("node");
    reveal_strlit("labels");
    reveal_strlit("level");
    assert("container"@[0] == 'c' && "namespace"@[0] == 'n' && "timestamp"@[0] == 't');
    let members = ext_members(event, formatter.color_enabled, formatter.all_namespaces);
    assert(json_text::plain_key("namespace"@));
    assert(json_text::plain_key("pod"@));
    assert(json_text::plain_key("container"@));
    assert(json_text::plain_key("message"@));
    assert(json_text::plain_key("timestamp"@));
    assert(json_text::plain_key("node"@));
    assert(json_text::plain_key("level"@));
    if !parsed_json::json_parses(without_line_feeds(event.message@)) {
        assert(json_text::shallow(members));
    }
}

/// Line feeds at the end are taken away, all of them, and nothing else.
pub proof fn law_line_feeds_at_the_end(message: Seq<char>)
    ensures
        without_line_feeds(message).is_prefix_of(message),
        forall|i: int|
            without_line_feeds(message).len() <= i < message.len() ==> #[trigger] message[i] == '\n',
        without_line_feeds(message).len() > 0 ==> without_line_feeds(message).last() != '\n',
    decreases message.len(),
{
    if message.len() > 0 && message.last() == '\n' {
        let rest = message.drop_last();
        law_line_feeds_at_the_end(rest);
        assert forall|i: int| without_line_feeds(message).len() <= i < message.len() implies
            #[trigger] message[i] == '\n' by {
            if i < rest.len() {
                assert(rest[i] == message[i]);
            }
        }
    }
}

/// The labels stand in the object exactly if there are any: each under its name with its value, and no
/// other.
pub proof fn law_labels_are_written(event: LogEvent, color_enabled: bool, all_namespaces: bool, name: Seq<char>)
    ensures
        ({
            let members = ext_members(event, color_enabled, all_namespaces);
            let labels = event.source.labels.0@;
            &&& members.contains_key("labels"@) <==> labels.dom().len() > 0
            &&& labels.dom().len() > 0 ==> (members["labels"@] matches JsonMember::Object(inner) && (
            inner.contains_key(name) <==> labels.contains_key(seq![name])) && (labels.contains_key(
                seq![name],
            ) ==> inner[name] == JsonMember::Text(labels[seq![name]]@)))
        }),
{
    reveal_strlit("namespace");
    reveal_strlit("pod");
    reveal_strlit("container");
    reveal_strlit("message");
    reveal_strlit("timestamp");
    reveal_strlit("node");
    reveal_strlit("labels");
    reveal_strlit("level");
    assert("labels"@.len() == 6 && "level"@.len() == 5 && "node"@.len() == 4);
    let members = ext_members(event, color_enabled, all_namespaces);
    let labels = event.source.labels.0@;
    if labels.dom().len() > 0 {
        assert(members["labels"@] == JsonMember::Object(label_members(*event.source.labels)));
        assert(label_members(*event.source.labels).contains_key(name) <==> labels.contains_key(
            seq![name],
        ));
    } else {
        assert(!members.contains_key("labels"@));
    }
}

/// The message is written as the JSON value that it reads as without the line feeds at its end, and as
/// a string exactly where it reads as none.
pub proof fn law_message_stays_json(message: Seq<char>)
    ensures
        match encoded_message(message) {
            JsonMember::Parsed(source) => parsed_json::json_parses(source) && source
                == without_line_feeds(message),
            JsonMember::Text(written) => !parsed_json::json_parses(written) && written
                == without_line_feeds(message),
            JsonMember::Object(_) => false,
        },
{
}

/// The pretty form is written exactly where it was asked for, and holds the same members as the other.
pub proof fn law_pretty_form(formatter: ExtJsonLineFormatter, event: LogEvent)
    ensures
        ({
            let members = ext_members(event, formatter.color_enabled, formatter.all_namespaces);
            &&& formatter.pretty ==> formatter.written(event) == json_text::json_object_pretty(members)
            &&& !formatter.pretty ==> formatter.written(event) == json_text::json_object_text(members)
        }),
{
}

/// An object comes behind what was written before and ends with a line feed.
pub proof fn law_object_behind_the_others(
    formatter: ExtJsonLineFormatter,
    event: LogEvent,
    before: Seq<char>,
    after: Seq<char>,
)
    requires
        formatter.formats(event, before, after),
    ensures
        before.is_prefix_of(after),
        after.last() == '\n',
        after.subrange(before.len() as int, after.len() - 1) == formatter.written(event),
{
    reveal_strlit("\n");
    assert(after.take(before.len() as int) =~= before);
    assert(after.subrange(before.len() as int, after.len() - 1) =~= formatter.written(event));
}

/// An object has no other members than these.
pub proof fn law_no_other_members(event: LogEvent, color_enabled: bool, all_namespaces: bool, key: Seq<char>)
    requires
        ext_members(event, color_enabled, all_namespaces).contains_key(key),
    ensures
        key == "namespace"@ || key == "pod"@ || key == "container"@ || key == "message"@ || key
            == "timestamp"@ || key == "node"@ || key == "labels"@ || key == "level"@,
{
}

} // verus!
