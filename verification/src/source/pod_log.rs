//! Reading container logs: request parameters, lines, and retries.

use crate::clock;
use crate::source;
use crate::source::retry;
use crate::source::{EventTime, LogEvent, LogSourceError, SourceMeta};
use crate::text;
use std::sync::Arc;
use vstd::prelude::*;
use vstd::utf8::*;

verus! {

/// The instant from which on logs are asked for: seconds since the Unix epoch and nanoseconds, both
/// of the same sign.
#[derive(Debug, Clone, Copy, PartialEq, Eq, Structural)]
pub struct SinceTime {
    pub secs: i64,
    pub nanos: i32,
}

/// Kubernetes log subresource knobs.
#[derive(Debug, Clone, Copy, PartialEq, Eq, Structural)]
pub struct PodLogRequest {
    pub follow: bool,
    pub tail: Option<i64>,
    pub since_seconds: Option<i64>,
    pub since_time: Option<SinceTime>,
    pub previous: bool,
}

impl Default for PodLogRequest {
    fn default() -> (request: Self)
        ensures
            request == (PodLogRequest {
                follow: false,
                tail: None,
                since_seconds: None,
                since_time: None,
                previous: false,
            }),
    {
        PodLogRequest {
            follow: false,
            tail: None,
            since_seconds: None,
            since_time: None,
            previous: false,
        }
    }
}

/// The seconds and nanoseconds of the `jiff::Timestamp` that `text` parses as, if it does.
pub uninterp spec fn jiff_instant(text: Seq<char>) -> Option<(i64, i32)>;

/// `jiff::Timestamp::from_str` reads an instant; `as_second` and `subsec_nanosecond` give its parts.
#[verifier::external_body]
pub(crate) fn parse_jiff(text: &str) -> (instant: Option<SinceTime>)
    ensures
        match instant {
            Some(t) => jiff_instant(text@) == Some((t.secs, t.nanos)),
            None => jiff_instant(text@) is None,
        },
{
    match text.parse::<jiff::Timestamp>() {
        Ok(t) => Some(SinceTime { secs: t.as_second(), nanos: t.subsec_nanosecond() }),
        Err(_) => None,
    }
}

/// Whether `since` is what the trimmed argument stands for, where what it reads as is given.
pub open spec fn is_since_time(
    arg: Seq<char>,
    instant: Option<SinceTime>,
    since: Result<SinceTime, String>,
) -> bool {
    if arg.len() == 0 {
        since matches Err(e) && e@ == "empty --since-time"@
    } else {
        match instant {
            Some(t) => since == Ok::<SinceTime, String>(t),
            None => since matches Err(e) && e@ == "invalid --since-time (expected RFC3339): "@ + arg,
        }
    }
}

/// What a trimmed argument stands for, once it was read.
pub fn since_time_from(arg: &str, instant: Option<SinceTime>) -> (since: Result<SinceTime, String>)
    ensures
        is_since_time(arg@, instant, since),
{
    if arg.is_empty() {
        return Err("empty --since-time".to_owned());
    }
    match instant {
        Some(t) => Ok(t),
        None => Err("invalid --since-time (expected RFC3339): ".to_owned().concat(arg)),
    }
}

/// Parses the instant from which on logs are asked for.
pub fn parse_since_time(raw: &str) -> (since: Result<SinceTime, String>)
    ensures
        ({
            let arg = text::trimmed(raw@);
            is_since_time(
                arg,
                match jiff_instant(arg) {
                    Some((secs, nanos)) => Some(SinceTime { secs, nanos }),
                    None => None,
                },
                since,
            )
        }),
{
    let arg = text::trim(raw);
    since_time_from(arg, parse_jiff(arg))
}

/// Parameters of a call of the Kubernetes log API.
#[derive(Debug)]
pub struct LogParams {
    pub container: Option<String>,
    pub follow: bool,
    pub limit_bytes: Option<i64>,
    pub pretty: bool,
    pub previous: bool,
    pub since_seconds: Option<i64>,
    pub since_time: Option<SinceTime>,
    pub tail_lines: Option<i64>,
    pub timestamps: bool,
}

/// Build the parameters of the Kubernetes log API. Timestamps are always asked for; an instant takes
/// the place of an age.
pub fn build_log_params(meta: &SourceMeta, req: &PodLogRequest) -> (params: LogParams)
    ensures
        params.container matches Some(c) && c@ == meta.container@,
        params.follow == req.follow,
        params.timestamps,
        params.tail_lines == req.tail,
        params.since_seconds == if req.since_time is Some {
            None
        } else {
            req.since_seconds
        },
        params.since_time == req.since_time,
        params.previous == req.previous,
        params.limit_bytes is None,
        !params.pretty,
{
    LogParams {
        container: Some(meta.container.clone()),
        follow: req.follow,
        limit_bytes: None,
        pretty: false,
        previous: req.previous,
        since_seconds: if req.since_time.is_some() {
            None
        } else {
            req.since_seconds
        },
        since_time: req.since_time,
        tail_lines: req.tail,
        timestamps: true,
    }
}

/// `std::str::from_utf8` reads bytes as text where they are valid UTF-8.
#[verifier::external_body]
fn utf8_text(bytes: &[u8]) -> (text: Option<&str>)
    ensures
        text is Some == valid_utf8(bytes@),
        text matches Some(s) ==> s@ == decode_utf8(bytes@),
{
    std::str::from_utf8(bytes).ok()
}

/// What `String::from_utf8_lossy` makes of bytes: the text, with replacement characters where they
/// are not valid UTF-8.
pub uninterp spec fn utf8_lossy(bytes: Seq<u8>) -> Seq<char>;

/// `String::from_utf8_lossy` reads bytes as text, replacing what is not valid UTF-8.
#[verifier::external_body]
fn utf8_lossy_text(bytes: &[u8]) -> (text: String)
    ensures
        text@ == utf8_lossy(bytes@),
        valid_utf8(bytes@) ==> text@ == decode_utf8(bytes@),
{
    String::from_utf8_lossy(bytes).into_owned()
}

/// The text of a line: what the bytes spell, with replacements where they are not valid UTF-8.
pub open spec fn line_text(bytes: Seq<u8>) -> Seq<char> {
    if valid_utf8(bytes) {
        decode_utf8(bytes)
    } else {
        utf8_lossy(bytes)
    }
}

fn text_of_line(bytes: &[u8]) -> (message: Arc<str>)
    ensures
        message@ == line_text(bytes@),
{
    match utf8_text(bytes) {
        Some(s) => source::shared_text(s),
        None => source::shared_text(utf8_lossy_text(bytes).as_str()),
    }
}

/// `raw` without one line feed at the end and one carriage return before it.
pub open spec fn without_line_end(raw: Seq<u8>) -> Seq<u8> {
    let line = if raw.len() > 0 && raw.last() == 10u8 {
        raw.drop_last()
    } else {
        raw
    };
    if line.len() > 0 && line.last() == 13u8 {
        line.drop_last()
    } else {
        line
    }
}

/// Strips the line end.
pub fn trim_line_end(raw: &[u8]) -> (line: &[u8])
    ensures
        line@ == without_line_end(raw@),
{
    let mut n: usize = raw.len();
    if n > 0 && raw[n - 1] == 10u8 {
        n -= 1;
    }
    let ghost stripped = raw@.take(n as int);
    assert(stripped =~= if raw@.len() > 0 && raw@.last() == 10u8 {
        raw@.drop_last()
    } else {
        raw@
    });
    if n > 0 && raw[n - 1] == 13u8 {
        assert(stripped.last() == 13u8);
        n -= 1;
    } else {
        assert(n > 0 ==> stripped.last() != 13u8);
    }
    assert(raw@.subrange(0, n as int) =~= without_line_end(raw@));
    vstd::slice::slice_subrange(raw, 0, n)
}

/// The time stamp in front of the first space, if what stands there is one, and the bytes behind
/// that space.
pub open spec fn stamped(line: Seq<u8>) -> Option<(EventTime, Seq<u8>)> {
    match line.index_of_first(32u8) {
        Some(i) => if valid_utf8(line.take(i)) {
            match clock::rfc3339_instant(decode_utf8(line.take(i))) {
                Some((secs, nanos)) => Some((EventTime { secs, nanos }, line.skip(i + 1))),
                None => None,
            }
        } else {
            None
        },
        None => None,
    }
}

/// Whether `parsed` is what a raw line comes to at the time `now`: the time stamp in front and the
/// text behind it, or `now` and the whole text.
pub open spec fn is_parsed_line(raw: Seq<u8>, now: EventTime, parsed: (EventTime, Arc<str>)) -> bool {
    let line = without_line_end(raw);
    match stamped(line) {
        Some((time, rest)) => parsed.0 == time && parsed.1@ == line_text(rest),
        None => parsed.0 == now && parsed.1@ == line_text(line),
    }
}

/// Splits the time stamp off a line; a line without one gets the time `now`.
pub fn parse_log_line_at(raw: &[u8], now: EventTime) -> (parsed: (EventTime, Arc<str>))
    ensures
        is_parsed_line(raw@, now, parsed),
        now.wf() ==> parsed.0.wf(),
{
    let line = trim_line_end(raw);
    let n: usize = line.len();
    let mut i: usize = 0;
    while i < n && line[i] != 32u8
        invariant
            i <= n,
            n == line@.len(),
            forall|j: int| 0 <= j < i ==> #[trigger] line@[j] != 32u8,
        decreases n - i,
    {
        i += 1;
    }
    if i < n {
        proof {
            text::lemma_first_index(line@, 32u8, i as int);
            assert(line@.subrange(0, i as int) =~= line@.take(i as int));
            assert(line@.subrange(i + 1, n as int) =~= line@.skip(i + 1));
        }
        match utf8_text(vstd::slice::slice_subrange(line, 0, i)) {
            Some(stamp) => match clock::parse_rfc3339(stamp) {
                Some(time) => {
                    return (time, text_of_line(vstd::slice::slice_subrange(line, i + 1, n)));
                },
                None => {},
            },
            None => {},
        }
    } else {
        proof {
            text::lemma_no_index(line@, 32u8);
        }
    }
    (now, text_of_line(line))
}

/// Parse a newline-terminated log line from a reusable read buffer. A line without a time stamp gets
/// the time of the system clock.
pub fn parse_log_line_bytes(raw: &[u8]) -> (parsed: (EventTime, Arc<str>))
    ensures
        exists|now: EventTime|
            clock::clock_can_show(now) && #[trigger] is_parsed_line(raw@, now, parsed),
{
    let now = clock::utc_now();
    parse_log_line_at(raw, now)
}

/// Parse a log line with an optional RFC3339 prefix into time and message.
pub fn parse_log_line(raw: &str) -> (parsed: (EventTime, Arc<str>))
    ensures
        exists|now: EventTime|
            clock::clock_can_show(now) && #[trigger] is_parsed_line(
                encode_utf8(raw@),
                now,
                parsed,
            ),
{
    parse_log_line_bytes(raw.as_bytes())
}

/// What reading from a log stream gave.
pub enum ReadOutcome {
    /// The stream has ended.
    End,
    /// One line, with its line end.
    Line(Vec<u8>),
    /// Reading failed.
    Failed(String),
}

/// Whether `ev` is a fresh event of that source with that time and message.
pub open spec fn is_fresh_event(ev: LogEvent, meta: Arc<SourceMeta>) -> bool {
    &&& ev.source == meta
    &&& ev.structured is None
    &&& ev.level is None
    &&& ev.palette_index == meta.palette_index
    &&& ev.container_palette_index == meta.container_palette_index
}

/// What a read comes to: nothing at the end, an event for a line, and an error, after which nothing
/// more is read, for a failure. The flag says whether that was the last item.
pub fn item_from_read(meta: &Arc<SourceMeta>, read: ReadOutcome, now: EventTime) -> (item: Option<
    (Result<LogEvent, LogSourceError>, bool),
>)
    ensures
        match read {
            ReadOutcome::End => item is None,
            ReadOutcome::Line(bytes) => item matches Some((Ok(ev), last)) && !last && is_fresh_event(
                ev,
                *meta,
            ) && is_parsed_line(bytes@, now, (ev.timestamp, ev.message)),
            ReadOutcome::Failed(reason) => item matches Some((Err(LogSourceError::Api(e)), last))
                && last && e@ == reason@,
        },
        now.wf() && meta.labels.wf() ==> (item matches Some((Ok(ev), _)) ==> ev.wf()),
{
    match read {
        ReadOutcome::End => None,
        ReadOutcome::Line(bytes) => {
            let (timestamp, message) = parse_log_line_at(bytes.as_slice(), now);
            let ev = LogEvent {
                source: meta.clone(),
                timestamp,
                message,
                structured: None,
                level: None,
                palette_index: meta.palette_index,
                container_palette_index: meta.container_palette_index,
            };
            Some((Ok(ev), false))
        },
        ReadOutcome::Failed(reason) => Some((Err(LogSourceError::Api(reason)), true)),
    }
}

/// Why opening a log stream failed: the HTTP status that the API server answered with, if it did,
/// and what the error says.
#[derive(Debug)]
pub struct OpenFailure {
    pub status: Option<u16>,
    pub reason: String,
}

/// What to do after a log stream could not be opened.
#[derive(Debug)]
pub enum RetryStep {
    /// Report the error.
    GiveUp(LogSourceError),
    /// Wait for a jittered backoff of that base and attempt, then try attempt `next`.
    RetryAfter { base_ms: u64, attempt: u32, next: u32 },
}

/// The base of the backoff between two tries to open a log stream.
pub const OPEN_BACKOFF_BASE_MS: u64 = 200;

/// Whether `step` is what follows a failed try: the error after a client error or after the last
/// try, and the next try otherwise.
pub open spec fn is_retry_step(
    attempt: u32,
    max_attempts: u32,
    failure: OpenFailure,
    step: RetryStep,
) -> bool {
    if retry::is_client_error(failure.status) {
        step matches RetryStep::GiveUp(LogSourceError::Api(e)) && e@ == failure.reason@
    } else if attempt + 1 >= max_attempts {
        step matches RetryStep::GiveUp(LogSourceError::Api(e)) && e@ == "after "@ + text::decimal(
            max_attempts as nat,
        ) + " attempts: "@ + failure.reason@
    } else {
        step == RetryStep::RetryAfter {
            base_ms: OPEN_BACKOFF_BASE_MS,
            attempt,
            next: (attempt + 1) as u32,
        }
    }
}

/// Decides whether a log stream is tried again: never after a client error, and only while fewer
/// than `max_attempts` tries were made. `attempt` counts the tries from zero.
pub fn retry_after_failure(attempt: u32, max_attempts: u32, failure: OpenFailure) -> (step: RetryStep)
    requires
        attempt < u32::MAX,
    ensures
        is_retry_step(attempt, max_attempts, failure, step),
{
    if retry::kube_error_is_client_error(failure.status) {
        return RetryStep::GiveUp(LogSourceError::Api(failure.reason));
    }
    if attempt + 1 >= max_attempts {
        return RetryStep::GiveUp(
            LogSourceError::Api(
                "after ".to_owned().concat(text::to_decimal(max_attempts as u64).as_str()).concat(
                    " attempts: ",
                ).concat(failure.reason.as_str()),
            ),
        );
    }
    RetryStep::RetryAfter { base_ms: OPEN_BACKOFF_BASE_MS, attempt, next: attempt + 1 }
}

/// A line with a line end parses as the line without it.
pub proof fn law_line_end_does_not_matter(line: Seq<u8>, now: EventTime, parsed: (EventTime, Arc<str>))
    requires
        line.len() == 0 || (line.last() != 10u8 && line.last() != 13u8),
    ensures
        is_parsed_line(line, now, parsed) == is_parsed_line(line.push(10u8), now, parsed),
        is_parsed_line(line, now, parsed) == is_parsed_line(line.push(13u8).push(10u8), now, parsed),
{
    assert(line.push(10u8).drop_last() =~= line);
    assert(line.push(13u8).push(10u8).drop_last() =~= line.push(13u8));
    assert(line.push(13u8).drop_last() =~= line);
    assert(line.push(13u8).last() == 13u8);
}

/// Opening a log stream is tried at most `max_attempts` times, and not again after a client error.
pub proof fn law_tries_are_bounded(
    attempt: u32,
    max_attempts: u32,
    failure: OpenFailure,
    step: RetryStep,
)
    requires
        attempt < u32::MAX,
        is_retry_step(attempt, max_attempts, failure, step),
    ensures
        step matches RetryStep::RetryAfter { next, .. } ==> next == attempt + 1 && next < max_attempts,
        step is GiveUp == (retry::is_client_error(failure.status) || attempt + 1 >= max_attempts),
{
}

/// One line feed is taken from the end, and then one carriage return; nothing else is.
pub proof fn law_line_ends(line: Seq<u8>)
    requires
        line.len() == 0 || (line.last() != 10u8 && line.last() != 13u8),
    ensures
        without_line_end(line) == line,
        without_line_end(line.push(10u8)) == line,
        without_line_end(line.push(13u8)) == line,
        without_line_end(line.push(13u8).push(10u8)) == line,
        without_line_end(line.push(10u8).push(10u8)) == line.push(10u8),
        without_line_end(line.push(13u8).push(13u8)) == line.push(13u8),
{
    assert(line.push(10u8).drop_last() =~= line);
    assert(line.push(13u8).drop_last() =~= line);
    assert(line.push(13u8).push(10u8).drop_last() =~= line.push(13u8));
    assert(line.push(10u8).push(10u8).drop_last() =~= line.push(10u8));
    assert(line.push(13u8).push(13u8).drop_last() =~= line.push(13u8));
}

/// A line that begins with a time stamp and a space gets that time, and what stands behind the space
/// as its message; the clock does not matter.
pub proof fn law_stamped_line(
    stamp: Seq<u8>,
    rest: Seq<u8>,
    secs: i64,
    nanos: u32,
    now: EventTime,
    parsed: (EventTime, Arc<str>),
)
    requires
        !stamp.contains(32u8),
        valid_utf8(stamp),
        clock::rfc3339_instant(decode_utf8(stamp)) == Some((secs, nanos)),
        rest.len() == 0 || (rest.last() != 10u8 && rest.last() != 13u8),
        is_parsed_line(stamp.push(32u8) + rest, now, parsed),
    ensures
        parsed.0 == (EventTime { secs, nanos }),
        parsed.1@ == line_text(rest),
{
    let line = stamp.push(32u8) + rest;
    let i: int = stamp.len() as int;
    assert(line.last() != 10u8 && line.last() != 13u8);
    assert(line[i] == 32u8);
    assert forall|j: int| 0 <= j < i implies #[trigger] line[j] != 32u8 by {
        assert(stamp[j] == line[j]);
        assert(stamp.contains(stamp[j]));
    }
    text::lemma_first_index(line, 32u8, i);
    assert(line.take(i) =~= stamp);
    assert(line.skip(i + 1) =~= rest);
}

/// A line whose first word is no time stamp, and one without a space, gets the time of the clock and
/// is the message as a whole.
pub proof fn law_unstamped_line(
    word: Seq<u8>,
    rest: Seq<u8>,
    now: EventTime,
    parsed: (EventTime, Arc<str>),
    whole: (EventTime, Arc<str>),
)
    requires
        !word.contains(32u8),
        !valid_utf8(word) || clock::rfc3339_instant(decode_utf8(word)) is None,
        word.len() == 0 || (word.last() != 10u8 && word.last() != 13u8),
        rest.len() == 0 || (rest.last() != 10u8 && rest.last() != 13u8),
        is_parsed_line(word.push(32u8) + rest, now, parsed),
        is_parsed_line(word, now, whole),
    ensures
        parsed.0 == now,
        parsed.1@ == line_text(word.push(32u8) + rest),
        whole.0 == now,
        whole.1@ == line_text(word),
{
    let line = word.push(32u8) + rest;
    let i: int = word.len() as int;
    assert(line.last() != 10u8 && line.last() != 13u8);
    assert(line[i] == 32u8);
    assert forall|j: int| 0 <= j < i implies #[trigger] line[j] != 32u8 by {
        assert(word[j] == line[j]);
        assert(word.contains(word[j]));
    }
    text::lemma_first_index(line, 32u8, i);
    assert(line.take(i) =~= word);
    assert forall|j: int| 0 <= j < word.len() implies #[trigger] word[j] != 32u8 by {
        assert(word.contains(word[j]));
    }
    text::lemma_no_index(word, 32u8);
}

/// An argument is understood exactly if it is not empty and reads as an instant, and stands for that
/// instant alone.
pub proof fn law_since_time_is_the_instant(
    arg: Seq<char>,
    instant: Option<SinceTime>,
    since: Result<SinceTime, String>,
)
    requires
        is_since_time(arg, instant, since),
    ensures
        since is Ok <==> arg.len() > 0 && instant is Some,
        since matches Ok(t) ==> instant == Some(t),
        since matches Err(e) ==> e@ == if arg.len() == 0 {
            "empty --since-time"@
        } else {
            "invalid --since-time (expected RFC3339): "@ + arg
        },
{
}

/// A refused stream is reported with the very reason that was given; one that was tried too often
/// with the number of tries in front of the reason.
pub proof fn law_reports_the_reason(
    attempt: u32,
    max_attempts: u32,
    failure: OpenFailure,
    step: RetryStep,
)
    requires
        attempt < u32::MAX,
        is_retry_step(attempt, max_attempts, failure, step),
    ensures
        step matches RetryStep::GiveUp(e) ==> (e matches LogSourceError::Api(said)
            && failure.reason@.is_suffix_of(said@) && said@ == if retry::is_client_error(
            failure.status,
        ) {
            failure.reason@
        } else {
            "after "@ + text::decimal(max_attempts as nat) + " attempts: "@ + failure.reason@
        }),
        step matches RetryStep::RetryAfter { base_ms, attempt: made, .. } ==> base_ms == 200 && made
            == attempt,
        failure.status matches Some(code) && 400 <= code < 500 && code != 429 ==> step is GiveUp,
        failure.status is None && attempt + 1 < max_attempts ==> step is RetryAfter,
        failure.status == Some(429u16) && attempt + 1 < max_attempts ==> step is RetryAfter,
        failure.status matches Some(code) && code >= 500 && attempt + 1 < max_attempts ==> step is RetryAfter,
{
    if let RetryStep::GiveUp(LogSourceError::Api(said)) = step {
        let n: int = said@.len() - failure.reason@.len();
        assert(said@.skip(n) =~= failure.reason@);
    }
}

/// A fresh event has the slots of its source, and neither a payload nor a level yet.
pub proof fn law_fresh_event(ev: LogEvent, meta: Arc<SourceMeta>)
    requires
        is_fresh_event(ev, meta),
    ensures
        ev.source == meta,
        ev.palette_index == meta.palette_index,
        ev.container_palette_index == meta.container_palette_index,
        ev.structured is None,
        ev.level is None,
{
}

/// A line of valid UTF-8 reads as what its bytes spell.
pub proof fn law_valid_line_reads_as_it_is(text: Seq<char>)
    ensures
        line_text(encode_utf8(text)) == text,
{
    encode_utf8_decode_utf8(text);
    encode_utf8_valid_utf8(text);
}

} // verus!
