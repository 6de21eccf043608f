//! Lines for a terminal: time, pod, container and message.

use crate::clock;
use crate::format_display::{TimestampStyle, TimestampZone};
use crate::render::color;
use crate::render::LineFormatter;
use crate::source::{EventTime, LogEvent};
use crate::text;
use vstd::prelude::*;

verus! {

/// Writes pod, container and message, with an optional time in front.
#[derive(Debug)]
pub struct DefaultLineFormatter {
    pub timestamp_style: TimestampStyle,
    pub timestamp_zone: TimestampZone,
    pub color_enabled: bool,
    pub pod_colors: bool,
    pub container_colors: bool,
}

/// Whether `shown` may stand in front of a line for the instant `t`. Which offset from UTC the zone of
/// the machine has is not known here; an instant told in it is told at some offset.
pub open spec fn is_wall_prefix(
    t: EventTime,
    style: TimestampStyle,
    zone: TimestampZone,
    shown: Option<Seq<char>>,
) -> bool {
    match style {
        TimestampStyle::Omit => shown is None,
        TimestampStyle::EpochSeconds => shown == Some(text::signed_decimal(t.secs as int)),
        TimestampStyle::Rfc3339 => match zone {
            TimestampZone::Utc => shown == Some(clock::wall_rfc3339_text(t.secs, t.nanos)),
            TimestampZone::Local => exists|offset: i32|
                clock::is_offset(offset) && shown == Some(
                    #[trigger] clock::offset_rfc3339_text(offset, t.secs, t.nanos),
                ),
            TimestampZone::Iana(z) => shown == Some(
                clock::zone_rfc3339_text(z@, t.secs, t.nanos),
            ),
        },
        TimestampStyle::SternShort => match zone {
            TimestampZone::Utc => shown == Some(clock::short_text(t.secs, t.nanos)),
            TimestampZone::Local => exists|offset: i32|
                clock::is_offset(offset) && shown == Some(
                    #[trigger] clock::offset_short_text(offset, t.secs, t.nanos),
                ),
            TimestampZone::Iana(z) => shown == Some(clock::zone_short_text(z@, t.secs, t.nanos)),
        },
    }
}

/// The view of an optional text.
pub open spec fn text_of(shown: Option<String>) -> Option<Seq<char>> {
    match shown {
        Some(s) => Some(s@),
        None => None,
    }
}

/// The time in front of a line.
pub fn format_wall_prefix(t: EventTime, style: TimestampStyle, zone: &TimestampZone) -> (shown:
    Option<String>)
    requires
        t.wf(),
    ensures
        is_wall_prefix(t, style, *zone, text_of(shown)),
{
    let shown = match style {
        TimestampStyle::Omit => return None,
        TimestampStyle::EpochSeconds => text::to_signed_decimal(t.secs),
        TimestampStyle::Rfc3339 => match zone {
            TimestampZone::Utc => clock::to_wall_rfc3339(t),
            TimestampZone::Local => clock::to_offset_rfc3339(t, clock::local_offset(t)),
            TimestampZone::Iana(z) => z.to_rfc3339(t),
        },
        TimestampStyle::SternShort => match zone {
            TimestampZone::Utc => clock::to_short(t),
            TimestampZone::Local => clock::to_offset_short(t, clock::local_offset(t)),
            TimestampZone::Iana(z) => z.to_short(t),
        },
    };
    Some(shown)
}

impl DefaultLineFormatter {
    /// The palette slot that colors the pod, if any.
    pub open spec fn pod_slot(&self, event: LogEvent) -> Option<u8> {
        if self.pod_colors {
            event.palette_index
        } else {
            None
        }
    }

    /// The palette slot that colors the container, if any.
    pub open spec fn container_slot(&self, event: LogEvent) -> Option<u8> {
        if self.container_colors {
            event.container_palette_index
        } else {
            None
        }
    }

    /// The line of an event behind the time `shown`.
    pub open spec fn line(&self, event: LogEvent, shown: Option<Seq<char>>) -> Seq<char> {
        let prefix = match shown {
            Some(time) => time + " "@,
            None => Seq::empty(),
        };
        prefix + color::colored(event.source.pod@, self.pod_slot(event), self.color_enabled) + "/"@
            + color::colored(
            event.source.container@,
            self.container_slot(event),
            self.color_enabled,
        ) + " | "@ + event.message@ + "\n"@
    }
}

impl LineFormatter for DefaultLineFormatter {
    open spec fn formats(&self, event: LogEvent, before: Seq<char>, after: Seq<char>) -> bool {
        exists|shown: Option<Seq<char>>|
            #![trigger self.line(event, shown)]
            is_wall_prefix(event.timestamp, self.timestamp_style, self.timestamp_zone, shown)
                && after == before + self.line(event, shown)
    }

    fn format_into(&self, event: &LogEvent, buf: &mut String) {
        let shown = format_wall_prefix(event.timestamp, self.timestamp_style, &self.timestamp_zone);
        match &shown {
            Some(time) => {
                buf.append(time.as_str());
                buf.append(" ");
            },
            None => {},
        }
        let pod_slot = if self.pod_colors {
            event.palette_index
        } else {
            None
        };
        let pod = color::colorize(event.source.pod.as_str(), pod_slot, self.color_enabled);
        buf.append(pod.as_str());
        buf.append("/");
        let container_slot = if self.container_colors {
            event.container_palette_index
        } else {
            None
        };
        let container = color::colorize(
            event.source.container.as_str(),
            container_slot,
            self.color_enabled,
        );
        buf.append(container.as_str());
        buf.append(" | ");
        buf.append(&event.message);
        buf.append("\n");
        assert(buf@ == old(buf)@ + self.line(*event, text_of(shown)));
    }
}

/// Unless the time is told in the zone of the machine, an event has one line.
pub proof fn law_line_is_determined(
    formatter: DefaultLineFormatter,
    event: LogEvent,
    before: Seq<char>,
    first: Seq<char>,
    second: Seq<char>,
)
    requires
        !(formatter.timestamp_zone is Local) || formatter.timestamp_style is Omit
            || formatter.timestamp_style is EpochSeconds,
        formatter.formats(event, before, first),
        formatter.formats(event, before, second),
    ensures
        first == second,
{
}

/// Without colors a line is the time if one is shown, the pod, the container and the message.
pub proof fn law_plain_line(formatter: DefaultLineFormatter, event: LogEvent, shown: Option<Seq<char>>)
    requires
        !formatter.color_enabled || (event.palette_index is None && event.container_palette_index is None),
    ensures
        formatter.line(event, shown) == (match shown {
            Some(time) => time + " "@,
            None => Seq::empty(),
        }) + event.source.pod@ + "/"@ + event.source.container@ + " | "@ + event.message@ + "\n"@,
{
}

/// A line comes behind what was written before, ends the pod and container with a bar, the whole
/// message and a line feed; colors touch the two names alone, each by its own slot and its own switch.
pub proof fn law_names_are_colored_apart(
    formatter: DefaultLineFormatter,
    event: LogEvent,
    shown: Option<Seq<char>>,
)
    requires
        formatter.color_enabled,
    ensures
        formatter.line(event, shown) == (match shown {
            Some(time) => time + " "@,
            None => Seq::empty(),
        }) + (if formatter.pod_colors {
            color::colored(event.source.pod@, event.palette_index, true)
        } else {
            event.source.pod@
        }) + "/"@ + (if formatter.container_colors {
            color::colored(event.source.container@, event.container_palette_index, true)
        } else {
            event.source.container@
        }) + " | "@ + event.message@ + "\n"@,
{
}

/// Whatever the options are, what was written before stays, and the line ends with a bar, the whole
/// message and a line feed.
pub proof fn law_line_ends_with_the_message(
    formatter: DefaultLineFormatter,
    event: LogEvent,
    before: Seq<char>,
    after: Seq<char>,
)
    requires
        formatter.formats(event, before, after),
    ensures
        before.is_prefix_of(after),
        (" | "@ + event.message@ + "\n"@).is_suffix_of(after),
        after.len() >= before.len() + event.source.pod@.len() + event.source.container@.len()
            + event.message@.len() + 5,
{
    reveal_strlit(" | ");
    reveal_strlit("/");
    reveal_strlit("\n");
    let shown = choose|shown: Option<Seq<char>>|
        #![trigger formatter.line(event, shown)]
        is_wall_prefix(
            event.timestamp,
            formatter.timestamp_style,
            formatter.timestamp_zone,
            shown,
        ) && after == before + formatter.line(event, shown);
    let tail = " | "@ + event.message@ + "\n"@;
    let line = formatter.line(event, shown);
    assert(line.skip(line.len() - tail.len()) =~= tail);
    assert(after.skip(after.len() - tail.len()) =~= tail);
    assert(after.take(before.len() as int) =~= before);
    color::law_color_goes_around_the_text(
        event.source.pod@,
        formatter.pod_slot(event),
        formatter.color_enabled,
    );
    color::law_color_goes_around_the_text(
        event.source.container@,
        formatter.container_slot(event),
        formatter.color_enabled,
    );
}

/// No time is shown where it is to be omitted, and one in every other style. Seconds are those since
/// the epoch, whatever the zone; any other style tells the instant in the zone that was asked for.
pub proof fn law_time_in_front(
    t: EventTime,
    style: TimestampStyle,
    zone: TimestampZone,
    shown: Option<Seq<char>>,
)
    requires
        is_wall_prefix(t, style, zone, shown),
    ensures
        shown is None <==> style is Omit,
        style is EpochSeconds && t.secs >= 0 ==> text::number_of(shown->0) == t.secs,
        style is EpochSeconds && t.secs < 0 ==> shown->0.len() > 0 && shown->0[0] == '-'
            && text::number_of(shown->0.skip(1)) == -t.secs,
        style is Rfc3339 && zone is Utc ==> shown == Some(clock::wall_rfc3339_text(t.secs, t.nanos)),
        style is SternShort && zone is Utc ==> shown == Some(clock::short_text(t.secs, t.nanos)),
        zone matches TimestampZone::Iana(z) ==> (style is Rfc3339 ==> shown == Some(
            clock::zone_rfc3339_text(z@, t.secs, t.nanos),
        )) && (style is SternShort ==> shown == Some(clock::zone_short_text(z@, t.secs, t.nanos))),
{
    if style is EpochSeconds && t.secs >= 0 {
        text::law_decimal_reads_back(t.secs as nat);
    }
    if style is EpochSeconds && t.secs < 0 {
        text::law_minus_sign(t.secs as int);
    }
}

} // verus!
