//! In-memory cursor of each stream: the time of the last line that was seen, from which a stream is
//! opened again.

use crate::clock;
use crate::order::Keyed;
use crate::ordered_map::OrderedMap;
use crate::source::pod_log;
use crate::source::pod_log::{PodLogRequest, SinceTime};
use crate::source::{EventTime, SourceKey};
use vstd::prelude::*;

verus! {

/// How far before the last line a stream is opened again (seconds).
pub const CURSOR_RECONNECT_OVERLAP_SECS: i64 = 1;

/// The advance of a cursor.
#[derive(Debug)]
pub struct CursorUpdate {
    pub key: SourceKey,
    pub timestamp: EventTime,
}

/// How often cursors were set and read. The counters wrap around.
#[derive(Debug, Clone, Copy, PartialEq, Eq, Structural)]
pub struct CursorStoreStats {
    pub cursor_updates: u64,
    pub cursor_gets: u64,
}

/// The time of the last line of each stream.
pub struct ReconnectCursorStore {
    cursors: OrderedMap<SourceKey, EventTime>,
    stats: Option<CursorStoreStats>,
}

impl View for ReconnectCursorStore {
    type V = Map<Seq<Seq<char>>, EventTime>;

    closed spec fn view(&self) -> Map<Seq<Seq<char>>, EventTime> {
        self.cursors@
    }
}

/// The counters after one was raised by one.
pub open spec fn with_get(stats: Option<CursorStoreStats>) -> Option<CursorStoreStats> {
    match stats {
        Some(s) => Some(
            CursorStoreStats { cursor_gets: crate::runtime::forward::counted(s.cursor_gets), ..s },
        ),
        None => None,
    }
}

pub open spec fn with_update(stats: Option<CursorStoreStats>) -> Option<CursorStoreStats> {
    match stats {
        Some(s) => Some(
            CursorStoreStats {
                cursor_updates: crate::runtime::forward::counted(s.cursor_updates),
                ..s
            },
        ),
        None => None,
    }
}

impl ReconnectCursorStore {
    /// The cursors are sorted by stream.
    pub closed spec fn wf(&self) -> bool {
        self.cursors.wf()
    }

    /// The counters, if the store counts.
    pub closed spec fn counted(&self) -> Option<CursorStoreStats> {
        self.stats
    }

    /// A store without cursors that does not count.
    pub fn new() -> (store: Self)
        ensures
            store.wf(),
            store@ == Map::<Seq<Seq<char>>, EventTime>::empty(),
            store.counted() is None,
    {
        ReconnectCursorStore { cursors: OrderedMap::new(), stats: None }
    }

    /// A store without cursors that counts from zero.
    pub fn new_with_stats() -> (store: Self)
        ensures
            store.wf(),
            store@ == Map::<Seq<Seq<char>>, EventTime>::empty(),
            store.counted() == Some(CursorStoreStats { cursor_updates: 0, cursor_gets: 0 }),
    {
        ReconnectCursorStore {
            cursors: OrderedMap::new(),
            stats: Some(CursorStoreStats { cursor_updates: 0, cursor_gets: 0 }),
        }
    }

    /// The counters, if the store counts.
    pub fn stats(&self) -> (stats: Option<CursorStoreStats>)
        ensures
            stats == self.counted(),
    {
        self.stats
    }

    /// The cursor of a stream.
    pub fn get(&mut self, key: &SourceKey) -> (cursor: Option<EventTime>)
        requires
            old(self).wf(),
        ensures
            final(self).wf(),
            final(self)@ == old(self)@,
            final(self).counted() == with_get(old(self).counted()),
            cursor == if old(self)@.contains_key(key.key()) {
                Some(old(self)@[key.key()])
            } else {
                None
            },
    {
        match self.stats {
            Some(s) => {
                self.stats = Some(
                    CursorStoreStats {
                        cursor_updates: s.cursor_updates,
                        cursor_gets: crate::runtime::forward::count(s.cursor_gets),
                    },
                );
            },
            None => {},
        }
        match self.cursors.get(key) {
            Some(t) => Some(*t),
            None => None,
        }
    }

    /// Sets the cursor of a stream.
    pub fn record(&mut self, key: &SourceKey, timestamp: EventTime)
        requires
            old(self).wf(),
        ensures
            final(self).wf(),
            final(self)@ == old(self)@.insert(key.key(), timestamp),
            final(self).counted() == with_update(old(self).counted()),
    {
        match self.stats {
            Some(s) => {
                self.stats = Some(
                    CursorStoreStats {
                        cursor_updates: crate::runtime::forward::count(s.cursor_updates),
                        cursor_gets: s.cursor_gets,
                    },
                );
            },
            None => {},
        }
        self.cursors.insert(key.clone(), timestamp);
    }

    /// Takes the advance of a cursor.
    pub fn apply_update(&mut self, update: &CursorUpdate)
        requires
            old(self).wf(),
        ensures
            final(self).wf(),
            final(self)@ == old(self)@.insert(update.key.key(), update.timestamp),
            final(self).counted() == with_update(old(self).counted()),
    {
        self.record(&update.key, update.timestamp);
    }

    /// Forgets the cursor of a stream.
    pub fn remove(&mut self, key: &SourceKey)
        requires
            old(self).wf(),
        ensures
            final(self).wf(),
            final(self)@ == old(self)@.remove(key.key()),
            final(self).counted() == old(self).counted(),
    {
        self.cursors.remove(key);
    }
}

/// From when on a stream is opened again whose last line is of `last`: a second earlier, as far as
/// that instant reads back.
pub open spec fn overlap(last: EventTime) -> Option<SinceTime> {
    let from = clock::earlier(last, CURSOR_RECONNECT_OVERLAP_SECS as int);
    match pod_log::jiff_instant(clock::rfc3339_nanos_text(from.secs, from.nanos)) {
        Some((secs, nanos)) => Some(SinceTime { secs, nanos }),
        None => None,
    }
}

/// From when on a stream is opened again whose last line is of `last`.
pub fn overlap_since_time(last: EventTime) -> (since: Option<SinceTime>)
    requires
        last.wf(),
    ensures
        since == overlap(last),
{
    let from = match clock::go_back(last, CURSOR_RECONNECT_OVERLAP_SECS) {
        Some(t) => t,
        None => last,
    };
    let written = clock::to_rfc3339_nanos(from);
    pod_log::parse_jiff(written.as_str())
}

/// The request that opens a stream again: from the overlap on, in place of the tail and of the age
/// that it was first opened with. Without an overlap it is the first request.
pub open spec fn reopened(
    base: PodLogRequest,
    since: Option<SinceTime>,
    reopen: bool,
) -> PodLogRequest {
    if reopen && since is Some {
        PodLogRequest { tail: None, since_seconds: None, since_time: since, ..base }
    } else {
        base
    }
}

/// The request that opens a stream again, once the overlap is known.
pub fn pod_log_request_for_reopen_with_overlap(
    base: &PodLogRequest,
    since: Option<SinceTime>,
    reopen: bool,
) -> (request: PodLogRequest)
    ensures
        request == reopened(*base, since, reopen),
{
    let mut request = *base;
    if reopen {
        match since {
            Some(t) => {
                request.tail = None;
                request.since_seconds = None;
                request.since_time = Some(t);
            },
            None => {},
        }
    }
    request
}

/// The request that opens a stream again whose last line is of `last`.
pub fn pod_log_request_for_reopen(
    base: &PodLogRequest,
    last: Option<EventTime>,
    reopen: bool,
) -> (request: PodLogRequest)
    requires
        last matches Some(t) ==> t.wf(),
    ensures
        request == reopened(
            *base,
            match last {
                Some(t) => overlap(t),
                None => None,
            },
            reopen,
        ),
{
    if !reopen {
        return *base;
    }
    let since = match last {
        Some(t) => overlap_since_time(t),
        None => None,
    };
    pod_log_request_for_reopen_with_overlap(base, since, reopen)
}

/// A cursor that was set is read until it is set again or forgotten, whatever happens to the others.
pub proof fn law_cursor_is_kept(
    cursors: Map<Seq<Seq<char>>, EventTime>,
    key: Seq<Seq<char>>,
    other: Seq<Seq<char>>,
    first: EventTime,
    second: EventTime,
)
    requires
        key != other,
    ensures
        cursors.insert(key, first).insert(other, second)[key] == first,
        cursors.insert(key, first).remove(other)[key] == first,
        cursors.insert(key, first).insert(key, second)[key] == second,
        !cursors.insert(key, first).remove(key).contains_key(key),
{
}

/// Opening a stream again never asks for a tail or an age together with an instant that the cursor
/// gave, and changes nothing else of the request.
pub proof fn law_reopened_request(base: PodLogRequest, since: SinceTime)
    ensures
        ({
            let request = reopened(base, Some(since), true);
            &&& request.since_time == Some(since)
            &&& request.tail is None
            &&& request.since_seconds is None
            &&& request.follow == base.follow
            &&& request.previous == base.previous
        }),
        reopened(base, Some(since), false) == base,
        reopened(base, None, true) == base,
{
}

/// A stream is opened again from one second before its last line.
pub proof fn law_overlap_is_one_second(last: EventTime)
    requires
        last.wf(),
        last.nanos < 1_000_000_000,
    ensures
        match pod_log::jiff_instant(
            clock::rfc3339_nanos_text((last.secs - 1) as i64, last.nanos),
        ) {
            Some((secs, nanos)) => overlap(last) == Some(SinceTime { secs, nanos }),
            None => overlap(last) is None,
        },
{
}

/// A read raises the counter of reads by one and a write that of writes; neither touches the other,
/// and a store that does not count goes on not counting.
pub proof fn law_reads_and_writes_are_counted(stats: CursorStoreStats)
    requires
        stats.cursor_gets < u64::MAX,
        stats.cursor_updates < u64::MAX,
    ensures
        with_get(Some(stats)) matches Some(s) && s.cursor_gets == stats.cursor_gets + 1
            && s.cursor_updates == stats.cursor_updates,
        with_update(Some(stats)) matches Some(s) && s.cursor_updates == stats.cursor_updates + 1
            && s.cursor_gets == stats.cursor_gets,
        with_get(None) is None,
        with_update(None) is None,
{
}

} // verus!
