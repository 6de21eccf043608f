//! Points in time, as `chrono` reads them, tells them and writes them.

use crate::source::EventTime;
use chrono::{DateTime, FixedOffset, Local, Offset, SecondsFormat, TimeDelta, Utc};
use std::str::FromStr;
use vstd::prelude::*;

verus! {

/// The seconds of the first and of the last instant that are told in every zone: two days inside
/// the range of `chrono::DateTime`.
pub const FIRST_SECOND: i64 = -8_334_601_056_000;

pub const LAST_SECOND: i64 = 8_210_266_703_999;

impl EventTime {
    /// The instant can be told in every zone. Nanoseconds from one thousand million on are inside a
    /// leap second, which only the last second of a minute can be.
    pub open spec fn wf(&self) -> bool {
        &&& FIRST_SECOND <= self.secs <= LAST_SECOND
        &&& self.nanos < 2_000_000_000
        &&& self.nanos >= 1_000_000_000 ==> self.secs % 60 == 59
    }

    /// Whether the instant can be told in every zone.
    pub fn is_valid(&self) -> (valid: bool)
        ensures
            valid == self.wf(),
    {
        if self.secs < FIRST_SECOND || self.secs > LAST_SECOND || self.nanos >= 2_000_000_000 {
            return false;
        }
        if self.nanos < 1_000_000_000 {
            return true;
        }
        let shifted: u64 = (self.secs - FIRST_SECOND) as u64;
        assert(FIRST_SECOND % 60 == 0);
        assert(shifted % 60 == self.secs % 60) by (nonlinear_arith)
            requires
                shifted == self.secs - FIRST_SECOND,
                FIRST_SECOND == -8_334_601_056_000,
                self.secs >= FIRST_SECOND,
        ;
        shifted % 60 == 59
    }

    /// Whether this instant is later than `secs` seconds after `other`.
    pub open spec fn later_by(&self, secs: int, other: EventTime) -> bool {
        ||| self.secs > other.secs + secs
        ||| self.secs == other.secs + secs && self.nanos > other.nanos
    }

    /// Whether this instant is `other` or later.
    pub open spec fn not_before(&self, other: EventTime) -> bool {
        ||| self.secs > other.secs
        ||| self.secs == other.secs && self.nanos >= other.nanos
    }

    /// Whether this instant is `other` or later.
    pub fn reaches(&self, other: &EventTime) -> (reached: bool)
        ensures
            reached == self.not_before(*other),
    {
        self.secs > other.secs || (self.secs == other.secs && self.nanos >= other.nanos)
    }
}

/// The seconds and nanoseconds of the instant that `chrono::DateTime::parse_from_rfc3339` reads
/// from `text`, if it reads one.
pub uninterp spec fn rfc3339_instant(text: Seq<char>) -> Option<(i64, u32)>;

/// `chrono::DateTime::parse_from_rfc3339` reads an instant; `timestamp` and
/// `timestamp_subsec_nanos` give its seconds since the Unix epoch and its nanoseconds. A year has
/// four digits and an offset whole minutes, so the instant can be told in every zone.
#[verifier::external_body]
pub(crate) fn parse_rfc3339(text: &str) -> (instant: Option<EventTime>)
    ensures
        match instant {
            Some(t) => rfc3339_instant(text@) == Some((t.secs, t.nanos)) && t.wf(),
            None => rfc3339_instant(text@) is None,
        },
{
    match DateTime::parse_from_rfc3339(text) {
        Ok(t) => Some(EventTime { secs: t.timestamp(), nanos: t.timestamp_subsec_nanos() }),
        Err(_) => None,
    }
}

/// Whether an instant is one that the system clock can show: not before the Unix epoch, and not
/// inside a leap second.
pub open spec fn clock_can_show(t: EventTime) -> bool {
    t.secs >= 0 && t.nanos < 1_000_000_000
}

/// `chrono::Utc::now` reads the system clock as a duration since the Unix epoch, and panics if the
/// clock is set before it. Which instant the clock shows is not stated.
#[verifier::external_body]
pub(crate) fn utc_now() -> (now: EventTime)
    ensures
        clock_can_show(now),
{
    let t = Utc::now();
    EventTime { secs: t.timestamp(), nanos: t.timestamp_subsec_nanos() }
}

/// The instant `by` seconds before `t`. Going back out of a leap second counts that second too.
pub open spec fn earlier(t: EventTime, by: int) -> EventTime {
    if by == 0 {
        t
    } else if t.nanos < 1_000_000_000 {
        EventTime { secs: (t.secs - by) as i64, nanos: t.nanos }
    } else {
        EventTime { secs: (t.secs + 1 - by) as i64, nanos: (t.nanos - 1_000_000_000) as u32 }
    }
}

/// `chrono::DateTime::checked_sub_signed` goes back by some seconds. It gives nothing only below the
/// range of `chrono`, which is more than a day away from an instant that every zone tells.
#[verifier::external_body]
pub(crate) fn go_back(t: EventTime, by: i64) -> (back: Option<EventTime>)
    requires
        t.wf(),
        0 <= by <= 86_400,
    ensures
        back == Some(earlier(t, by as int)),
{
    let at = DateTime::from_timestamp(t.secs, t.nanos).unwrap_or_default();
    let back = at.checked_sub_signed(TimeDelta::seconds(by));
    back.map(|e| EventTime { secs: e.timestamp(), nanos: e.timestamp_subsec_nanos() })
}

/// What `chrono::DateTime::to_rfc3339_opts` writes for an instant in UTC with nanoseconds and `Z`.
pub uninterp spec fn rfc3339_nanos_text(secs: i64, nanos: u32) -> Seq<char>;

/// `chrono::DateTime::to_rfc3339_opts` writes an instant in UTC with nanoseconds and `Z`.
#[verifier::external_body]
pub(crate) fn to_rfc3339_nanos(t: EventTime) -> (written: String)
    requires
        FIRST_SECOND - 86_400 <= t.secs <= LAST_SECOND,
        t.nanos < 2_000_000_000,
        t.nanos >= 1_000_000_000 ==> t.secs % 60 == 59,
    ensures
        written@ == rfc3339_nanos_text(t.secs, t.nanos),
{
    let at = DateTime::from_timestamp(t.secs, t.nanos).unwrap_or_default();
    at.to_rfc3339_opts(SecondsFormat::Nanos, true)
}

/// What `chrono::DateTime::to_rfc3339` writes for an instant in UTC.
pub uninterp spec fn rfc3339_text(secs: i64, nanos: u32) -> Seq<char>;

/// `chrono::DateTime::to_rfc3339` writes an instant in UTC, with as many digits as it takes and a
/// numeric offset.
#[verifier::external_body]
pub(crate) fn to_rfc3339(t: EventTime) -> (written: String)
    requires
        t.wf(),
    ensures
        written@ == rfc3339_text(t.secs, t.nanos),
{
    let at = DateTime::from_timestamp(t.secs, t.nanos).unwrap_or_default();
    at.to_rfc3339()
}

/// What `chrono::DateTime::format` writes for an instant in UTC with `%m-%d %H:%M:%S`.
pub uninterp spec fn short_text(secs: i64, nanos: u32) -> Seq<char>;

/// `chrono::DateTime::format` writes month, day and time of an instant in UTC.
#[verifier::external_body]
pub(crate) fn to_short(t: EventTime) -> (written: String)
    requires
        t.wf(),
    ensures
        written@ == short_text(t.secs, t.nanos),
{
    let at = DateTime::from_timestamp(t.secs, t.nanos).unwrap_or_default();
    at.format("%m-%d %H:%M:%S").to_string()
}

/// What `chrono::DateTime::to_rfc3339_opts` writes for an instant in UTC with nanoseconds and a
/// numeric offset.
pub uninterp spec fn wall_rfc3339_text(secs: i64, nanos: u32) -> Seq<char>;

/// `chrono::DateTime::to_rfc3339_opts` writes an instant in UTC with nanoseconds and a numeric
/// offset.
#[verifier::external_body]
pub(crate) fn to_wall_rfc3339(t: EventTime) -> (written: String)
    requires
        t.wf(),
    ensures
        written@ == wall_rfc3339_text(t.secs, t.nanos),
{
    let at = DateTime::from_timestamp(t.secs, t.nanos).unwrap_or_default();
    at.to_rfc3339_opts(SecondsFormat::Nanos, false)
}

/// Whether `chrono::FixedOffset` can hold an offset of so many seconds: less than a day either way.
pub open spec fn is_offset(offset: i32) -> bool {
    -86_400 < offset < 86_400
}

/// `chrono::DateTime::with_timezone` with `chrono::Local` finds the offset of the machine's time zone
/// from UTC at an instant; `chrono::FixedOffset::local_minus_utc` gives it in seconds. Which offset
/// the machine keeps is not stated.
#[verifier::external_body]
pub(crate) fn local_offset(t: EventTime) -> (offset: i32)
    requires
        t.wf(),
    ensures
        is_offset(offset),
{
    let at = DateTime::from_timestamp(t.secs, t.nanos).unwrap_or_default();
    at.with_timezone(&Local).offset().local_minus_utc()
}

/// What `chrono::DateTime::to_rfc3339_opts` writes with nanoseconds for an instant at an offset from
/// UTC of so many seconds.
pub uninterp spec fn offset_rfc3339_text(offset: i32, secs: i64, nanos: u32) -> Seq<char>;

/// `chrono::DateTime::to_rfc3339_opts` writes an instant at an offset from UTC with nanoseconds.
#[verifier::external_body]
pub(crate) fn to_offset_rfc3339(t: EventTime, offset: i32) -> (written: String)
    requires
        t.wf(),
        is_offset(offset),
    ensures
        written@ == offset_rfc3339_text(offset, t.secs, t.nanos),
{
    let at = DateTime::from_timestamp(t.secs, t.nanos).unwrap_or_default();
    let zone = FixedOffset::east_opt(offset).unwrap_or(Utc.fix());
    at.with_timezone(&zone).to_rfc3339_opts(SecondsFormat::Nanos, false)
}

/// What `chrono::DateTime::format` writes with `%m-%d %H:%M:%S` for an instant at an offset from UTC
/// of so many seconds.
pub uninterp spec fn offset_short_text(offset: i32, secs: i64, nanos: u32) -> Seq<char>;

/// `chrono::DateTime::format` writes month, day and time of an instant at an offset from UTC.
#[verifier::external_body]
pub(crate) fn to_offset_short(t: EventTime, offset: i32) -> (written: String)
    requires
        t.wf(),
        is_offset(offset),
    ensures
        written@ == offset_short_text(offset, t.secs, t.nanos),
{
    let at = DateTime::from_timestamp(t.secs, t.nanos).unwrap_or_default();
    let zone = FixedOffset::east_opt(offset).unwrap_or(Utc.fix());
    at.with_timezone(&zone).format("%m-%d %H:%M:%S").to_string()
}

/// A time zone of `chrono_tz`.
#[verifier::external_type_specification]
#[verifier::external_body]
pub struct ExTz(chrono_tz::Tz);

/// Whether `chrono_tz::Tz::from_str` knows a zone of that name.
pub uninterp spec fn zone_known(name: Seq<char>) -> bool;

/// What `chrono::DateTime::to_rfc3339_opts` writes with nanoseconds and a numeric offset for an
/// instant in the zone of that name.
pub uninterp spec fn zone_rfc3339_text(name: Seq<char>, secs: i64, nanos: u32) -> Seq<char>;

/// What `chrono::DateTime::format` writes for an instant in the zone of that name with
/// `%m-%d %H:%M:%S`.
pub uninterp spec fn zone_short_text(name: Seq<char>, secs: i64, nanos: u32) -> Seq<char>;

/// A time zone together with its name.
///
/// The fields are private and only [`IanaZone::lookup`] and `clone` make one, so `tz` is always the
/// zone that `name` names.
#[derive(Debug)]
pub struct IanaZone {
    name: String,
    tz: chrono_tz::Tz,
}

impl View for IanaZone {
    type V = Seq<char>;

    closed spec fn view(&self) -> Seq<char> {
        self.name@
    }
}

impl Clone for IanaZone {
    fn clone(&self) -> (copy: Self)
        ensures
            copy@ == self@,
    {
        IanaZone { name: self.name.clone(), tz: self.tz }
    }
}

impl IanaZone {
    /// `chrono_tz::Tz::from_str` looks a zone up by its name.
    #[verifier::external_body]
    pub(crate) fn lookup(name: &str) -> (zone: Option<IanaZone>)
        ensures
            zone is Some == zone_known(name@),
            zone matches Some(z) ==> z@ == name@,
    {
        match chrono_tz::Tz::from_str(name) {
            Ok(tz) => Some(IanaZone { name: name.to_owned(), tz }),
            Err(_) => None,
        }
    }

    /// `chrono::DateTime::to_rfc3339_opts` writes an instant in the zone with nanoseconds and a
    /// numeric offset.
    #[verifier::external_body]
    pub(crate) fn to_rfc3339(&self, t: EventTime) -> (written: String)
        requires
            t.wf(),
        ensures
            written@ == zone_rfc3339_text(self@, t.secs, t.nanos),
    {
        let at = DateTime::from_timestamp(t.secs, t.nanos).unwrap_or_default();
        at.with_timezone(&self.tz).to_rfc3339_opts(SecondsFormat::Nanos, false)
    }

    /// `chrono::DateTime::format` writes month, day and time of an instant in the zone.
    #[verifier::external_body]
    pub(crate) fn to_short(&self, t: EventTime) -> (written: String)
        requires
            t.wf(),
        ensures
            written@ == zone_short_text(self@, t.secs, t.nanos),
    {
        let at = DateTime::from_timestamp(t.secs, t.nanos).unwrap_or_default();
        at.with_timezone(&self.tz).format("%m-%d %H:%M:%S").to_string()
    }
}

/// An instant is later than some seconds after another exactly if it is later than the instant that
/// comes that many whole seconds after it; it is never later than itself.
pub proof fn law_later_by(a: EventTime, b: EventTime, secs: int)
    requires
        a.nanos < 1_000_000_000,
        b.nanos < 1_000_000_000,
    ensures
        a.later_by(secs, b) <==> a.secs * 1_000_000_000 + a.nanos > (b.secs + secs) * 1_000_000_000
            + b.nanos,
        !a.later_by(0, a),
{
}

/// Of two instants one reaches the other, and both do only if they are the same.
pub proof fn law_instants_are_in_order(a: EventTime, b: EventTime, c: EventTime)
    ensures
        a.not_before(b) || b.not_before(a),
        a.not_before(b) && b.not_before(a) ==> a == b,
        a.not_before(b) && b.not_before(c) ==> a.not_before(c),
        a.secs > b.secs ==> a.not_before(b) && !b.not_before(a),
        a.secs == b.secs && a.nanos > b.nanos ==> a.not_before(b) && !b.not_before(a),
{
}

/// Going back outside a leap second takes that many seconds and leaves the nanoseconds.
pub proof fn law_earlier(t: EventTime, by: int)
    requires
        t.wf(),
        0 <= by <= 86_400,
    ensures
        t.nanos < 1_000_000_000 ==> earlier(t, by).secs == t.secs - by && earlier(t, by).nanos
            == t.nanos,
        t.not_before(earlier(t, by)),
        by > 1 ==> !earlier(t, by).not_before(t),
        earlier(t, 0) == t,
{
}

/// Every instant of the years from 1 to 9999 outside a leap second can be told in every zone.
pub proof fn law_ordinary_instants_are_valid(t: EventTime)
    requires
        -62_135_596_800 <= t.secs <= 253_402_300_799,
        t.nanos < 1_000_000_000,
    ensures
        t.wf(),
{
}

} // verus!
