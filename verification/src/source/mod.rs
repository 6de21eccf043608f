//! Log sources: who wrote a line, and what a line carries through the pipeline.

pub mod log_opener;
pub mod parsed_json;
pub mod pod_log;
pub mod pod_meta;
pub mod retry;

use crate::order;
use crate::order::{Comparison, Keyed};
use crate::ordered_map::OrderedMap;
use crate::source::parsed_json::ParsedJson;
use std::sync::Arc;
use vstd::prelude::*;

verus! {

/// `Arc::<str>::from` shares a copy of the text.
#[verifier::external_body]
pub(crate) fn shared_text(text: &str) -> (shared: Arc<str>)
    ensures
        shared@ == text@,
{
    Arc::from(text)
}

/// A kubeconfig context.
#[derive(Debug, PartialEq, Eq, Hash)]
pub struct ContextName(pub String);

impl Clone for ContextName {
    fn clone(&self) -> (copy: Self)
        ensures
            copy == *self,
    {
        ContextName(self.0.clone())
    }
}

/// Pod labels, by label name.
pub struct Labels(pub OrderedMap<String, String>);

impl Labels {
    /// The label list is sorted, so it stands for a map.
    pub open spec fn wf(&self) -> bool {
        self.0.wf()
    }

    /// Holds `value` under `name`.
    pub fn insert(&mut self, name: String, value: String)
        requires
            old(self).wf(),
        ensures
            final(self).wf(),
            final(self).0@ == old(self).0@.insert(seq![name@], value),
    {
        self.0.insert(name, value);
    }

    /// The value under `name`.
    pub fn get(&self, name: &str) -> (value: Option<&String>)
        requires
            self.wf(),
        ensures
            match value {
                Some(v) => self.0@.contains_key(seq![name@]) && *v == self.0@[seq![name@]],
                None => !self.0@.contains_key(seq![name@]),
            },
    {
        let owned = name.to_owned();
        self.0.get(&owned)
    }

    /// Whether there is no label.
    pub fn is_empty(&self) -> (empty: bool)
        requires
            self.wf(),
        ensures
            empty == (self.0@.dom().len() == 0),
    {
        self.0.len() == 0
    }

    /// A copy with the same labels in the same order.
    pub fn copied(&self) -> (copy: Labels)
        requires
            self.wf(),
        ensures
            copy.wf(),
            copy.0@ == self.0@,
            copy.0.items() == self.0.items(),
    {
        Labels(self.0.copied_texts())
    }
}

impl Default for Labels {
    fn default() -> (labels: Self)
        ensures
            labels.wf(),
            labels.0@ == Map::<Seq<Seq<char>>, String>::empty(),
            labels.0.items().len() == 0,
    {
        Labels(OrderedMap::new())
    }
}

/// What kind of source a line comes from.
#[derive(Debug, Clone, Copy, PartialEq, Eq, Hash, Structural)]
pub enum SourceKind {
    PodLog,
    Event,
    File,
}

/// The level that a line was classified as.
#[derive(Debug, PartialEq, Eq, Hash)]
pub enum LogLevel {
    Error,
    Warn,
    Info,
    Debug,
    Trace,
    Other(String),
}

impl LogLevel {
    /// The name of the level.
    pub open spec fn name(&self) -> Seq<char> {
        match self {
            LogLevel::Error => "error"@,
            LogLevel::Warn => "warn"@,
            LogLevel::Info => "info"@,
            LogLevel::Debug => "debug"@,
            LogLevel::Trace => "trace"@,
            LogLevel::Other(s) => s@,
        }
    }

    /// The name of the level.
    pub fn as_str(&self) -> (name: &str)
        ensures
            name@ == self.name(),
    {
        match self {
            LogLevel::Error => "error",
            LogLevel::Warn => "warn",
            LogLevel::Info => "info",
            LogLevel::Debug => "debug",
            LogLevel::Trace => "trace",
            LogLevel::Other(s) => s.as_str(),
        }
    }

    /// The level as it is shown in JSON output.
    pub open spec fn shown(&self) -> Seq<char> {
        match self {
            LogLevel::Error => "Error"@,
            LogLevel::Warn => "Warn"@,
            LogLevel::Info => "Info"@,
            LogLevel::Debug => "Debug"@,
            LogLevel::Trace => "Trace"@,
            LogLevel::Other(s) => "Other("@ + debug_quoted(s@) + ")"@,
        }
    }

    /// The level as it is shown in JSON output.
    pub fn to_shown(&self) -> (shown: String)
        ensures
            shown@ == self.shown(),
    {
        match self {
            LogLevel::Error => "Error".to_owned(),
            LogLevel::Warn => "Warn".to_owned(),
            LogLevel::Info => "Info".to_owned(),
            LogLevel::Debug => "Debug".to_owned(),
            LogLevel::Trace => "Trace".to_owned(),
            LogLevel::Other(s) => {
                let quoted = quote_debug(s.as_str());
                "Other(".to_owned().concat(quoted.as_str()).concat(")")
            },
        }
    }
}

impl Clone for LogLevel {
    fn clone(&self) -> (copy: Self)
        ensures
            copy == *self,
    {
        match self {
            LogLevel::Error => LogLevel::Error,
            LogLevel::Warn => LogLevel::Warn,
            LogLevel::Info => LogLevel::Info,
            LogLevel::Debug => LogLevel::Debug,
            LogLevel::Trace => LogLevel::Trace,
            LogLevel::Other(s) => LogLevel::Other(s.clone()),
        }
    }
}

/// What `std::fmt::Debug` shows for a text: the text in double quotes, with escapes.
pub uninterp spec fn debug_quoted(text: Seq<char>) -> Seq<char>;

/// `std::fmt::Debug` shows a text in double quotes, with escapes.
#[verifier::external_body]
fn quote_debug(text: &str) -> (quoted: String)
    ensures
        quoted@ == debug_quoted(text@),
{
    format!("{text:?}")
}

/// Where a line comes from, with what the renderer shows of it.
pub struct SourceMeta {
    pub context: ContextName,
    pub namespace: String,
    pub pod: String,
    pub container: String,
    pub kind: SourceKind,
    pub node: Option<String>,
    pub labels: Arc<Labels>,
    /// Pod `metadata.uid` (disambiguates reused names across rollouts).
    pub uid: String,
    /// Precomputed pod palette slot (set at attach when pod colors are on).
    pub palette_index: Option<u8>,
    /// Precomputed container palette slot (set at attach when container colors are on).
    pub container_palette_index: Option<u8>,
}

impl Clone for SourceMeta {
    fn clone(&self) -> (copy: Self)
        ensures
            copy == *self,
    {
        SourceMeta {
            context: self.context.clone(),
            namespace: self.namespace.clone(),
            pod: self.pod.clone(),
            container: self.container.clone(),
            kind: self.kind,
            node: self.node.clone(),
            labels: self.labels.clone(),
            uid: self.uid.clone(),
            palette_index: self.palette_index,
            container_palette_index: self.container_palette_index,
        }
    }
}

/// The identity of one container log stream.
#[derive(Debug, PartialEq, Eq, Hash)]
pub struct SourceKey {
    pub context: ContextName,
    pub namespace: String,
    pub pod: String,
    pub container: String,
    /// Pod `metadata.uid`.
    pub uid: String,
}

impl Clone for SourceKey {
    fn clone(&self) -> (copy: Self)
        ensures
            copy == *self,
    {
        SourceKey {
            context: self.context.clone(),
            namespace: self.namespace.clone(),
            pod: self.pod.clone(),
            container: self.container.clone(),
            uid: self.uid.clone(),
        }
    }
}

impl Keyed for SourceKey {
    open spec fn key(&self) -> Seq<Seq<char>> {
        seq![self.context.0@, self.namespace@, self.pod@, self.container@, self.uid@]
    }

    fn compare(&self, other: &Self) -> (order: Comparison) {
        proof {
            order::lemma_five_fields(self.key(), other.key());
        }
        let by_context = order::compare_texts(self.context.0.as_str(), other.context.0.as_str());
        if !by_context.is_equal() {
            return by_context;
        }
        let by_namespace = order::compare_texts(self.namespace.as_str(), other.namespace.as_str());
        if !by_namespace.is_equal() {
            return by_namespace;
        }
        let by_pod = order::compare_texts(self.pod.as_str(), other.pod.as_str());
        if !by_pod.is_equal() {
            return by_pod;
        }
        let by_container = order::compare_texts(self.container.as_str(), other.container.as_str());
        if !by_container.is_equal() {
            return by_container;
        }
        order::compare_texts(self.uid.as_str(), other.uid.as_str())
    }
}

/// A point in time: seconds since the Unix epoch and nanoseconds within the second
/// (from one thousand million on inside a leap second).
#[derive(Debug, Clone, Copy, PartialEq, Eq, Hash, Structural)]
pub struct EventTime {
    pub secs: i64,
    pub nanos: u32,
}

/// One log line on its way through the pipeline.
pub struct LogEvent {
    pub source: Arc<SourceMeta>,
    pub timestamp: EventTime,
    pub message: Arc<str>,
    pub structured: Option<ParsedJson>,
    pub level: Option<LogLevel>,
    /// Stable palette slot for pod-name highlighting.
    pub palette_index: Option<u8>,
    /// Stable palette slot for container-name highlighting (`diff-container` uses container name).
    pub container_palette_index: Option<u8>,
}

impl LogEvent {
    /// The time can be told in every zone, and the labels stand for a map.
    pub open spec fn wf(&self) -> bool {
        self.timestamp.wf() && self.source.labels.wf()
    }
}

/// Why a source gave no further line.
#[derive(Debug)]
pub enum LogSourceError {
    Eof,
    Api(String),
    Cancelled,
}

impl LogSourceError {
    /// What the error says.
    pub open spec fn text(&self) -> Seq<char> {
        match self {
            LogSourceError::Eof => "upstream stream ended"@,
            LogSourceError::Api(reason) => "api error: "@ + reason@,
            LogSourceError::Cancelled => "cancelled"@,
        }
    }

    /// What the error says.
    pub fn message(&self) -> (text: String)
        ensures
            text@ == self.text(),
    {
        match self {
            LogSourceError::Eof => "upstream stream ended".to_owned(),
            LogSourceError::Api(reason) => "api error: ".to_owned().concat(reason.as_str()),
            LogSourceError::Cancelled => "cancelled".to_owned(),
        }
    }
}

/// Two streams have the same key exactly if context, namespace, pod, container and uid are the same.
pub proof fn law_key_tells_streams_apart(a: SourceKey, b: SourceKey)
    ensures
        a.key() == b.key() <==> a.context.0@ == b.context.0@ && a.namespace@ == b.namespace@ && a.pod@
            == b.pod@ && a.container@ == b.container@ && a.uid@ == b.uid@,
        a.key().len() == 5,
{
    let x = a.key();
    let y = b.key();
    assert(x[0] == a.context.0@ && x[1] == a.namespace@ && x[2] == a.pod@ && x[3] == a.container@
        && x[4] == a.uid@);
    assert(y[0] == b.context.0@ && y[1] == b.namespace@ && y[2] == b.pod@ && y[3] == b.container@
        && y[4] == b.uid@);
    if a.context.0@ == b.context.0@ && a.namespace@ == b.namespace@ && a.pod@ == b.pod@
        && a.container@ == b.container@ && a.uid@ == b.uid@ {
        assert(x =~= y);
    }
}

/// A level is shown in JSON as its name with a capital in front; a word that is no level is shown in
/// brackets behind `Other`.
pub proof fn law_shown_level(level: LogLevel)
    ensures
        !(level is Other) ==> level.shown().len() == level.name().len() && level.shown().skip(1)
            == level.name().skip(1) && level.shown()[0] as u32 + 32 == level.name()[0] as u32,
        level matches LogLevel::Other(word) ==> level.name() == word@ && "Other("@.is_prefix_of(
            level.shown(),
        ),
{
    reveal_strlit("error");
    reveal_strlit("warn");
    reveal_strlit("info");
    reveal_strlit("debug");
    reveal_strlit("trace");
    reveal_strlit("Error");
    reveal_strlit("Warn");
    reveal_strlit("Info");
    reveal_strlit("Debug");
    reveal_strlit("Trace");
    match level {
        LogLevel::Other(word) => {
            assert(level.shown().take("Other("@.len() as int) =~= "Other("@);
        },
        _ => {
            assert(level.shown().skip(1) =~= level.name().skip(1));
        },
    }
}

/// The levels have different names.
pub proof fn law_level_names_differ(a: LogLevel, b: LogLevel)
    requires
        !(a is Other),
        !(b is Other),
        a.name() == b.name(),
    ensures
        a == b,
{
    reveal_strlit("error");
    reveal_strlit("warn");
    reveal_strlit("info");
    reveal_strlit("debug");
    reveal_strlit("trace");
    assert("error"@[0] == 'e' && "warn"@[0] == 'w' && "info"@[0] == 'i' && "debug"@[0] == 'd'
        && "trace"@[0] == 't');
}

/// What an error of a source says ends with the reason, where there is one.
pub proof fn law_what_source_errors_say(reason: String)
    ensures
        LogSourceError::Api(reason).text() == "api error: "@ + reason@,
        LogSourceError::Eof.text() == "upstream stream ended"@,
        LogSourceError::Cancelled.text() == "cancelled"@,
{
}

} // verus!
