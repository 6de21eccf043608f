//! One JSON object a line.

use crate::clock;
use crate::render::json_text;
use crate::render::LineFormatter;
use crate::source::parsed_json;
use crate::source::LogEvent;
use vstd::prelude::*;

verus! {

/// Writes one JSON object a line.
#[derive(Debug)]
pub struct JsonLineFormatter;

/// The fields of the object for an event, in the order in which they are written.
pub open spec fn json_fields(event: LogEvent) -> Seq<(Seq<char>, Seq<char>)> {
    let fields = seq![
        ("pod"@, event.source.pod@),
        ("container"@, event.source.container@),
        ("namespace"@, event.source.namespace@),
        ("timestamp"@, clock::rfc3339_text(event.timestamp.secs, event.timestamp.nanos)),
        ("message"@, event.message@),
    ];
    match event.level {
        Some(level) => fields.push(("level"@, level.shown())),
        None => fields,
    }
}

/// The fields of the object for an event, in the order in which they are written.
pub fn json_line_fields(event: &LogEvent) -> (fields: Vec<(String, String)>)
    requires
        event.wf(),
    ensures
        json_text::field_texts(fields@) == json_fields(*event),
{
    let mut fields: Vec<(String, String)> = Vec::new();
    fields.push(("pod".to_owned(), event.source.pod.clone()));
    fields.push(("container".to_owned(), event.source.container.clone()));
    fields.push(("namespace".to_owned(), event.source.namespace.clone()));
    fields.push(("timestamp".to_owned(), clock::to_rfc3339(event.timestamp)));
    let message: &str = &event.message;
    fields.push(("message".to_owned(), message.to_owned()));
    match &event.level {
        Some(level) => fields.push(("level".to_owned(), level.to_shown())),
        None => {},
    }
    assert(json_text::field_texts(fields@) =~= json_fields(*event));
    fields
}

impl LineFormatter for JsonLineFormatter {
    open spec fn formats(&self, event: LogEvent, before: Seq<char>, after: Seq<char>) -> bool {
        let written = json_text::record_text(json_fields(event));
        &&& after == before + written + "\n"@
        &&& json_text::reads_back(written, json_text::record_members(json_fields(event)))
    }

    fn format_into(&self, event: &LogEvent, buf: &mut String) {
        let fields = json_line_fields(event);
        let written = json_text::write_record(&fields);
        proof {
            let texts = json_text::field_texts(fields@);
            assert(Seq::new(
                fields@.len(),
                |i: int|
                    json_text::json_quoted(fields@[i].0@) + ":"@ + json_text::json_quoted(
                        fields@[i].1@,
                    ),
            ) =~= Seq::new(
                texts.len(),
                |i: int|
                    json_text::json_quoted(texts[i].0) + ":"@ + json_text::json_quoted(texts[i].1),
            ));
            assert(written@ == json_text::record_text(texts));
        }
        buf.append(written.as_str());
        buf.append("\n");
    }
}

/// Reading a line back gives the fields of the event, and a level exactly if it has one.
pub proof fn law_json_line_reads_back(event: LogEvent, written: Seq<char>)
    requires
        JsonLineFormatter.formats(event, Seq::empty(), written + "\n"@),
    ensures
        parsed_json::json_parses(written),
        parsed_json::json_text_at(written, "/"@ + "pod"@) == Some(event.source.pod@),
        parsed_json::json_text_at(written, "/"@ + "container"@) == Some(event.source.container@),
        parsed_json::json_text_at(written, "/"@ + "namespace"@) == Some(event.source.namespace@),
        parsed_json::json_text_at(written, "/"@ + "timestamp"@) == Some(
            clock::rfc3339_text(event.timestamp.secs, event.timestamp.nanos),
        ),
        parsed_json::json_text_at(written, "/"@ + "message"@) == Some(event.message@),
        parsed_json::json_text_at(written, "/"@ + "level"@) == match event.level {
            Some(level) => Some(level.shown()),
            None => None,
        },
{
    reveal_strlit("pod");
    reveal_strlit("container");
    reveal_strlit("namespace");
    reveal_strlit("timestamp");
    reveal_strlit("message");
    reveal_strlit("level");
    reveal_strlit("\n");
    let text = json_text::record_text(json_fields(event));
    assert(Seq::<char>::empty() + text + "\n"@ == text + "\n"@);
    assert(written == (written + "\n"@).take(written.len() as int));
    assert(text == (text + "\n"@).take(text.len() as int));
    let fields = json_fields(event);
    let members = json_text::record_members(fields);
    reveal_with_fuel(json_text::record_members, 7);
    assert("container"@[0] == 'c' && "namespace"@[0] == 'n' && "timestamp"@[0] == 't');
    let five = fields.take(5);
    assert(five =~= if event.level is Some { fields.drop_last() } else { fields });
    assert(five.drop_last() =~= fields.take(4));
    assert(fields.take(4).drop_last() =~= fields.take(3));
    assert(fields.take(3).drop_last() =~= fields.take(2));
    assert(fields.take(2).drop_last() =~= fields.take(1));
    assert(fields.take(1).drop_last() =~= fields.take(0));
    assert forall|key: Seq<char>| members.contains_key(key) implies members[key] is Text by {};
    assert(json_text::shallow(members));
    assert(json_text::plain_key("pod"@));
    assert(json_text::plain_key("container"@));
    assert(json_text::plain_key("namespace"@));
    assert(json_text::plain_key("timestamp"@));
    assert(json_text::plain_key("message"@));
    assert(json_text::plain_key("level"@));
    assert(json_text::member_pointer("pod"@) == "/"@ + "pod"@);
    assert(json_text::member_pointer("container"@) == "/"@ + "container"@);
    assert(json_text::member_pointer("namespace"@) == "/"@ + "namespace"@);
    assert(json_text::member_pointer("timestamp"@) == "/"@ + "timestamp"@);
    assert(json_text::member_pointer("message"@) == "/"@ + "message"@);
    assert(json_text::member_pointer("level"@) == "/"@ + "level"@);
}

/// The fields come in a fixed order: pod, container, namespace, timestamp, message, and the level
/// last where there is one.
pub proof fn law_fields_in_order(event: LogEvent)
    ensures
        json_fields(event).len() == if event.level is Some {
            6nat
        } else {
            5nat
        },
        json_fields(event)[0] == ("pod"@, event.source.pod@),
        json_fields(event)[1] == ("container"@, event.source.container@),
        json_fields(event)[2] == ("namespace"@, event.source.namespace@),
        json_fields(event)[3].0 == "timestamp"@,
        json_fields(event)[4] == ("message"@, event.message@),
        event.level matches Some(level) ==> json_fields(event)[5] == ("level"@, level.shown()),
{
}

/// An object comes on a line of its own, behind what was written before.
pub proof fn law_object_on_its_own_line(event: LogEvent, before: Seq<char>, after: Seq<char>)
    requires
        JsonLineFormatter.formats(event, before, after),
    ensures
        before.is_prefix_of(after),
        after.len() > before.len(),
        after.last() == '\n',
{
    reveal_strlit("\n");
    assert(after.take(before.len() as int) =~= before);
}

} // verus!
