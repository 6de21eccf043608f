//! Ending the run when a line with a certain message or level comes by.

use crate::pipeline::level_classify;
use crate::regex_limits;
use crate::regex_limits::Pattern;
use crate::source::{LogEvent, LogLevel, LogSourceError};
use crate::text;
use vstd::prelude::*;

verus! {

/// The least level that ends the run.
#[derive(Debug, Clone, Copy, PartialEq, Eq, Structural)]
pub enum ExitOnLevel {
    Trace,
    Debug,
    Info,
    Warn,
    Error,
}

/// The level that a trimmed word in lower case stands for.
pub open spec fn exit_level_named(word: Seq<char>) -> Option<ExitOnLevel> {
    if word == "trace"@ {
        Some(ExitOnLevel::Trace)
    } else if word == "debug"@ {
        Some(ExitOnLevel::Debug)
    } else if word == "info"@ {
        Some(ExitOnLevel::Info)
    } else if word == "warn"@ || word == "warning"@ {
        Some(ExitOnLevel::Warn)
    } else if word == "error"@ || word == "err"@ || word == "fatal"@ {
        Some(ExitOnLevel::Error)
    } else {
        None
    }
}

impl ExitOnLevel {
    /// Parses a level word, whatever its case and the white space around it.
    pub fn parse(raw: &str) -> (level: Result<ExitOnLevel, String>)
        ensures
            ({
                let word = text::ascii_lowered(text::trimmed(raw@));
                match exit_level_named(word) {
                    Some(l) => level == Ok::<ExitOnLevel, String>(l),
                    None => level matches Err(e) && e@ == if word.len() == 0 {
                        "empty --exit-on-level"@
                    } else {
                        "invalid --exit-on-level: "@ + word
                    },
                }
            }),
    {
        let lowered = text::to_ascii_lowercase(text::trim(raw));
        let word = lowered.as_str();
        if text::same(word, "trace") {
            Ok(ExitOnLevel::Trace)
        } else if text::same(word, "debug") {
            Ok(ExitOnLevel::Debug)
        } else if text::same(word, "info") {
            Ok(ExitOnLevel::Info)
        } else if text::same(word, "warn") || text::same(word, "warning") {
            Ok(ExitOnLevel::Warn)
        } else if text::same(word, "error") || text::same(word, "err") || text::same(word, "fatal") {
            Ok(ExitOnLevel::Error)
        } else if word.is_empty() {
            Err("empty --exit-on-level".to_owned())
        } else {
            Err("invalid --exit-on-level: ".to_owned().concat(word))
        }
    }

    /// The rank of the level, from the least severe on.
    pub open spec fn severity(self) -> u8 {
        match self {
            ExitOnLevel::Trace => 0,
            ExitOnLevel::Debug => 1,
            ExitOnLevel::Info => 2,
            ExitOnLevel::Warn => 3,
            ExitOnLevel::Error => 4,
        }
    }

    /// The rank of the level, from the least severe on.
    pub fn rank(self) -> (rank: u8)
        ensures
            rank == self.severity(),
    {
        match self {
            ExitOnLevel::Trace => 0,
            ExitOnLevel::Debug => 1,
            ExitOnLevel::Info => 2,
            ExitOnLevel::Warn => 3,
            ExitOnLevel::Error => 4,
        }
    }
}

/// The rank that a level word has; a word that is not known ranks as `info`.
pub open spec fn word_severity(word: Seq<char>) -> u8 {
    match exit_level_named(text::ascii_lowered(word)) {
        Some(level) => level.severity(),
        None => 2,
    }
}

/// The rank of a line's level.
pub open spec fn level_severity(level: LogLevel) -> u8 {
    match level {
        LogLevel::Trace => 0,
        LogLevel::Debug => 1,
        LogLevel::Info => 2,
        LogLevel::Warn => 3,
        LogLevel::Error => 4,
        LogLevel::Other(s) => word_severity(s@),
    }
}

/// The rank of a line's level.
pub fn event_level_rank(level: &LogLevel) -> (rank: u8)
    ensures
        rank == level_severity(*level),
{
    match level {
        LogLevel::Trace => 0,
        LogLevel::Debug => 1,
        LogLevel::Info => 2,
        LogLevel::Warn => 3,
        LogLevel::Error => 4,
        LogLevel::Other(s) => {
            let lowered = text::to_ascii_lowercase(s.as_str());
            let word = lowered.as_str();
            if text::same(word, "trace") {
                0
            } else if text::same(word, "debug") {
                1
            } else if text::same(word, "info") {
                2
            } else if text::same(word, "warn") || text::same(word, "warning") {
                3
            } else if text::same(word, "error") || text::same(word, "err") || text::same(
                word,
                "fatal",
            ) {
                4
            } else {
                2
            }
        },
    }
}

/// Whether a line that ends the run has come by. Once it has, the run is to be cancelled.
#[derive(Debug)]
pub struct ExitWatchState {
    triggered: bool,
}

impl ExitWatchState {
    /// Whether a line that ends the run has come by.
    pub closed spec fn fired(&self) -> bool {
        self.triggered
    }

    /// No such line has come by yet.
    pub fn new() -> (state: Self)
        ensures
            !state.fired(),
    {
        ExitWatchState { triggered: false }
    }

    /// Whether a line that ends the run has come by.
    pub fn triggered(&self) -> (fired: bool)
        ensures
            fired == self.fired(),
    {
        self.triggered
    }

    /// Notes that such a line came by; answers whether it is the first, which is when the run has
    /// to be cancelled.
    pub fn fire(&mut self) -> (first: bool)
        ensures
            final(self).fired(),
            first == !old(self).fired(),
    {
        let first = !self.triggered;
        self.triggered = true;
        first
    }
}

/// Whether a line ends the run by its message.
pub open spec fn message_ends_run(item: Result<LogEvent, LogSourceError>, patterns: Seq<Pattern>) -> bool {
    item matches Ok(ev) && regex_limits::any_accepts(patterns, ev.message@)
}

/// Whether a line ends the run by its level.
pub open spec fn level_ends_run(item: Result<LogEvent, LogSourceError>, least: ExitOnLevel) -> bool {
    item matches Ok(ev) && ev.level matches Some(level) && level_severity(level) >= least.severity()
}

/// Fires where the message of a line matches one of the patterns. The line itself passes.
pub fn exit_watch_message(
    item: &Result<LogEvent, LogSourceError>,
    patterns: &Vec<Pattern>,
    state: &mut ExitWatchState,
)
    ensures
        final(state).fired() == (old(state).fired() || message_ends_run(*item, patterns@)),
{
    match item {
        Ok(ev) => {
            if regex_limits::any_match(patterns, &ev.message) {
                state.fire();
            }
        },
        Err(_) => {},
    }
}

/// Fires where the level of a line is at least `least`. The line itself passes.
pub fn exit_watch_level(
    item: &Result<LogEvent, LogSourceError>,
    least: ExitOnLevel,
    state: &mut ExitWatchState,
)
    ensures
        final(state).fired() == (old(state).fired() || level_ends_run(*item, least)),
{
    match item {
        Ok(ev) => match &ev.level {
            Some(level) => {
                if event_level_rank(level) >= least.rank() {
                    state.fire();
                }
            },
            None => {},
        },
        Err(_) => {},
    }
}

proof fn lemma_known_words()
    ensures
        text::ascii_lowered("trace"@) == "trace"@,
        text::ascii_lowered("debug"@) == "debug"@,
        text::ascii_lowered("info"@) == "info"@,
        text::ascii_lowered("warn"@) == "warn"@,
        text::ascii_lowered("warning"@) == "warning"@,
        text::ascii_lowered("error"@) == "error"@,
        text::ascii_lowered("err"@) == "err"@,
        text::ascii_lowered("fatal"@) == "fatal"@,
{
    reveal_strlit("trace");
    reveal_strlit("debug");
    reveal_strlit("info");
    reveal_strlit("warn");
    reveal_strlit("warning");
    reveal_strlit("error");
    reveal_strlit("err");
    reveal_strlit("fatal");
    assert(text::ascii_lowered("trace"@) =~= "trace"@);
    assert(text::ascii_lowered("debug"@) =~= "debug"@);
    assert(text::ascii_lowered("info"@) =~= "info"@);
    assert(text::ascii_lowered("warn"@) =~= "warn"@);
    assert(text::ascii_lowered("warning"@) =~= "warning"@);
    assert(text::ascii_lowered("error"@) =~= "error"@);
    assert(text::ascii_lowered("err"@) =~= "err"@);
    assert(text::ascii_lowered("fatal"@) =~= "fatal"@);
}

proof fn lemma_words_differ()
    ensures
        "trace"@ != "debug"@,
        "trace"@ != "info"@,
        "trace"@ != "warn"@,
        "trace"@ != "warning"@,
        "trace"@ != "error"@,
        "trace"@ != "err"@,
        "trace"@ != "fatal"@,
        "debug"@ != "info"@,
        "debug"@ != "warn"@,
        "debug"@ != "warning"@,
        "debug"@ != "error"@,
        "debug"@ != "err"@,
        "debug"@ != "fatal"@,
        "info"@ != "warn"@,
        "info"@ != "warning"@,
        "info"@ != "error"@,
        "info"@ != "err"@,
        "info"@ != "fatal"@,
        "warn"@ != "error"@,
        "warn"@ != "err"@,
        "warn"@ != "fatal"@,
        "warning"@ != "error"@,
        "warning"@ != "err"@,
        "warning"@ != "fatal"@,
{
    reveal_strlit("trace");
    reveal_strlit("debug");
    reveal_strlit("info");
    reveal_strlit("warn");
    reveal_strlit("warning");
    reveal_strlit("error");
    reveal_strlit("err");
    reveal_strlit("fatal");
    assert("trace"@[0] == 't' && "debug"@[0] == 'd' && "info"@[0] == 'i');
    assert("warn"@[0] == 'w' && "warning"@[0] == 'w' && "error"@[0] == 'e');
    assert("err"@[0] == 'e' && "fatal"@[0] == 'f');
}

/// A level word ranks the same whether it was classified first or kept as it is.
pub proof fn law_classified_level_ranks_as_its_word(word: Seq<char>, level: LogLevel)
    requires
        level_classify::is_level_of(word, level),
    ensures
        level_severity(level) == word_severity(word),
{
    lemma_known_words();
    lemma_words_differ();
}

/// A line whose level word is the one that the watch was set to ends the run.
pub proof fn law_own_level_ends_run(raw: Seq<char>, least: ExitOnLevel, level: LogLevel)
    requires
        exit_level_named(text::ascii_lowered(text::trimmed(raw))) == Some(least),
        level_classify::is_level_of(text::trimmed(raw), level),
    ensures
        level_severity(level) >= least.severity(),
{
    law_classified_level_ranks_as_its_word(text::trimmed(raw), level);
}

/// What ends a run at one level ends it at every lesser one.
pub proof fn law_lesser_thresholds_fire_too(
    item: Result<LogEvent, LogSourceError>,
    least: ExitOnLevel,
    lesser: ExitOnLevel,
)
    requires
        level_ends_run(item, least),
        lesser.severity() <= least.severity(),
    ensures
        level_ends_run(item, lesser),
{
}

/// Trace, debug, info, warn and error rank strictly one above the other, as thresholds and as levels
/// of a line alike, and a line level ranks as the threshold of the same name.
pub proof fn law_levels_rank_in_order()
    ensures
        ExitOnLevel::Trace.severity() < ExitOnLevel::Debug.severity(),
        ExitOnLevel::Debug.severity() < ExitOnLevel::Info.severity(),
        ExitOnLevel::Info.severity() < ExitOnLevel::Warn.severity(),
        ExitOnLevel::Warn.severity() < ExitOnLevel::Error.severity(),
        level_severity(LogLevel::Trace) == ExitOnLevel::Trace.severity(),
        level_severity(LogLevel::Debug) == ExitOnLevel::Debug.severity(),
        level_severity(LogLevel::Info) == ExitOnLevel::Info.severity(),
        level_severity(LogLevel::Warn) == ExitOnLevel::Warn.severity(),
        level_severity(LogLevel::Error) == ExitOnLevel::Error.severity(),
{
}

/// A line ends the run by its level exactly if that level is the threshold or stands above it in the
/// order from trace over debug, info and warn to error; a line without a level never does.
pub proof fn law_level_at_threshold_ends_run(ev: LogEvent, least: ExitOnLevel)
    ensures
        ev.level is None ==> !level_ends_run(Ok(ev), least),
        ev.level matches Some(LogLevel::Error) ==> level_ends_run(Ok(ev), least),
        ev.level matches Some(LogLevel::Warn) ==> (level_ends_run(Ok(ev), least) <==> least
            != ExitOnLevel::Error),
        ev.level matches Some(LogLevel::Info) ==> (level_ends_run(Ok(ev), least) <==> least
            != ExitOnLevel::Error && least != ExitOnLevel::Warn),
        ev.level matches Some(LogLevel::Debug) ==> (level_ends_run(Ok(ev), least) <==> least
            == ExitOnLevel::Debug || least == ExitOnLevel::Trace),
        ev.level matches Some(LogLevel::Trace) ==> (level_ends_run(Ok(ev), least) <==> least
            == ExitOnLevel::Trace),
{
}

/// A level that was kept as a word counts as the level that the word names, whatever its case; a word
/// that is not known counts as `info`.
pub proof fn law_level_words_count(ev: LogEvent, word: String, least: ExitOnLevel)
    requires
        ev.level == Some(LogLevel::Other(word)),
    ensures
        ({
            let lowered = text::ascii_lowered(word@);
            let ends = level_ends_run(Ok(ev), least);
            if lowered == "error"@ || lowered == "err"@ || lowered == "fatal"@ {
                ends
            } else if lowered == "warn"@ || lowered == "warning"@ {
                ends <==> least != ExitOnLevel::Error
            } else if lowered == "debug"@ {
                ends <==> least == ExitOnLevel::Debug || least == ExitOnLevel::Trace
            } else if lowered == "trace"@ {
                ends <==> least == ExitOnLevel::Trace
            } else {
                ends <==> least != ExitOnLevel::Error && least != ExitOnLevel::Warn
            }
        }),
{
    lemma_words_differ();
}

/// Each threshold goes by its own words, and no word stands for two thresholds.
pub proof fn law_threshold_words(word: Seq<char>)
    ensures
        exit_level_named(word) == Some(ExitOnLevel::Trace) <==> word == "trace"@,
        exit_level_named(word) == Some(ExitOnLevel::Debug) <==> word == "debug"@,
        exit_level_named(word) == Some(ExitOnLevel::Info) <==> word == "info"@,
        exit_level_named(word) == Some(ExitOnLevel::Warn) <==> word == "warn"@ || word == "warning"@,
        exit_level_named(word) == Some(ExitOnLevel::Error) <==> word == "error"@ || word == "err"@
            || word == "fatal"@,
{
    lemma_words_differ();
}

/// A line ends the run by its message exactly if a pattern at some position matches the message; what
/// failed on the way never does.
pub proof fn law_any_message_pattern_ends_run(
    item: Result<LogEvent, LogSourceError>,
    patterns: Seq<Pattern>,
)
    ensures
        message_ends_run(item, patterns) <==> (item matches Ok(ev) && exists|i: int|
            0 <= i < patterns.len() && regex_limits::pattern_matches(
                (#[trigger] patterns[i])@,
                ev.message@,
            )),
{
    if let Ok(ev) = item {
        if message_ends_run(item, patterns) {
            let i = choose|i: int|
                0 <= i < patterns.len() && (#[trigger] patterns[i]).accepts(ev.message@);
            assert(regex_limits::pattern_matches(patterns[i]@, ev.message@));
        }
        if exists|i: int|
            0 <= i < patterns.len() && regex_limits::pattern_matches(
                (#[trigger] patterns[i])@,
                ev.message@,
            ) {
            let i = choose|i: int|
                0 <= i < patterns.len() && regex_limits::pattern_matches(
                    (#[trigger] patterns[i])@,
                    ev.message@,
                );
            assert(patterns[i].accepts(ev.message@));
        }
    }
}

} // verus!
