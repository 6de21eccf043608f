//! Exec credential plugins: what to run, and which answers count.

use crate::clock;
use crate::discovery::context::{Cluster, ExecConfig, ExecEnvEntry, ExecInteractiveMode};
use crate::source::EventTime;
use crate::text;
use seahash::SeaHasher;
use std::hash::{Hash, Hasher};
use vstd::prelude::*;

verus! {

/// How long before its expiry a cached token stops being used, in seconds.
pub const EXPIRY_SKEW_SECS: i64 = 60;

/// The cluster as an exec plugin is told of it.
#[derive(Debug)]
pub struct ExecCredentialCluster {
    pub server: Option<String>,
    pub certificate_authority_data: Option<String>,
    pub insecure_skip_tls_verify: Option<bool>,
}

/// The request part of an exec credential.
#[derive(Debug)]
pub struct ExecCredentialSpec {
    pub cluster: Option<ExecCredentialCluster>,
    pub interactive: Option<bool>,
}

/// The answer part of an exec credential.
#[derive(Debug)]
pub struct ExecCredentialStatus {
    pub token: Option<String>,
    pub expiration_timestamp: Option<String>,
    pub client_certificate_data: Option<String>,
    pub client_key_data: Option<String>,
}

/// An exec credential, as it is handed to a plugin and as a plugin answers.
#[derive(Debug)]
pub struct ExecCredential {
    pub api_version: Option<String>,
    pub kind: Option<String>,
    pub details: Option<ExecCredentialSpec>,
    pub status: Option<ExecCredentialStatus>,
}

/// The version that credentials carry where the kubeconfig names none.
pub open spec fn credential_version(api_version: Option<String>) -> Seq<char> {
    match api_version {
        Some(v) => v@,
        None => "client.authentication.k8s.io/v1"@,
    }
}

fn version_or_default(api_version: &Option<String>) -> (version: String)
    ensures
        version@ == credential_version(*api_version),
{
    match api_version {
        Some(v) => v.clone(),
        None => "client.authentication.k8s.io/v1".to_owned(),
    }
}

/// The cluster as an exec plugin is told of it.
fn exec_cluster_from_config(cluster: &Cluster) -> (told: ExecCredentialCluster)
    ensures
        told.server == cluster.server,
        told.certificate_authority_data == cluster.certificate_authority_data,
        told.insecure_skip_tls_verify == cluster.insecure_skip_tls_verify,
{
    ExecCredentialCluster {
        server: cluster.server.clone(),
        certificate_authority_data: cluster.certificate_authority_data.clone(),
        insecure_skip_tls_verify: cluster.insecure_skip_tls_verify,
    }
}

/// Whether a plugin may talk to the terminal: unless it is never to.
pub open spec fn may_interact(plugin: ExecConfig) -> bool {
    plugin.interactive_mode != Some(ExecInteractiveMode::Never)
}

fn is_interactive(plugin: &ExecConfig) -> (interactive: bool)
    ensures
        interactive == may_interact(*plugin),
{
    match plugin.interactive_mode {
        Some(ExecInteractiveMode::Never) => false,
        _ => true,
    }
}

/// Whether `info` is what a plugin is told: the version, the cluster where there is one, and
/// whether it may interact.
pub open spec fn is_exec_info(plugin: ExecConfig, cluster: Option<&Cluster>, info: ExecCredential) -> bool {
    &&& info.api_version matches Some(v) && v@ == credential_version(plugin.api_version)
    &&& info.kind matches Some(k) && k@ == "ExecCredential"@
    &&& info.status is None
    &&& info.details matches Some(d) && {
        &&& d.interactive == Some(may_interact(plugin))
        &&& match cluster {
            Some(c) => d.cluster matches Some(told) && told.server == c.server
                && told.certificate_authority_data == c.certificate_authority_data
                && told.insecure_skip_tls_verify == c.insecure_skip_tls_verify,
            None => d.cluster is None,
        }
    }
}

/// What a plugin is told. A plugin that wants to know the cluster is told nothing without one.
pub fn exec_info(plugin: &ExecConfig, cluster: Option<&Cluster>) -> (info: Option<ExecCredential>)
    ensures
        info is None <==> plugin.provide_cluster_info && cluster is None,
        info matches Some(i) ==> is_exec_info(*plugin, cluster, i),
{
    if plugin.provide_cluster_info && cluster.is_none() {
        return None;
    }
    let told = match cluster {
        Some(c) => Some(exec_cluster_from_config(c)),
        None => None,
    };
    Some(
        ExecCredential {
            api_version: Some(version_or_default(&plugin.api_version)),
            kind: Some("ExecCredential".to_owned()),
            details: Some(
                ExecCredentialSpec { cluster: told, interactive: Some(is_interactive(plugin)) },
            ),
            status: None,
        },
    )
}

/// The environment variables that an entry sets: one, where it has both a name and a value.
pub open spec fn entry_sets(entry: ExecEnvEntry) -> Seq<(Seq<char>, Seq<char>)> {
    let name = seq!["name"@];
    let value = seq!["value"@];
    if entry.0@.contains_key(name) && entry.0@.contains_key(value) {
        seq![(entry.0@[name]@, entry.0@[value]@)]
    } else {
        Seq::empty()
    }
}

/// The environment variables that the entries set, in their order.
pub open spec fn env_sets(entries: Seq<ExecEnvEntry>) -> Seq<(Seq<char>, Seq<char>)>
    decreases entries.len(),
{
    if entries.len() == 0 {
        Seq::empty()
    } else {
        env_sets(entries.drop_last()) + entry_sets(entries.last())
    }
}

/// The character models of a list of pairs.
pub open spec fn pair_texts(list: Seq<(String, String)>) -> Seq<(Seq<char>, Seq<char>)> {
    list.map_values(|p: (String, String)| (p.0@, p.1@))
}

/// The environment variables that a plugin is started with.
fn apply_exec_env(entries: &Option<Vec<ExecEnvEntry>>) -> (set: Vec<(String, String)>)
    requires
        entries matches Some(list) ==> forall|i: int|
            0 <= i < list@.len() ==> (#[trigger] list@[i]).wf(),
    ensures
        pair_texts(set@) == match entries {
            Some(list) => env_sets(list@),
            None => Seq::empty(),
        },
{
    let mut set: Vec<(String, String)> = Vec::new();
    let list = match entries {
        Some(list) => list,
        None => {
            assert(pair_texts(set@) =~= Seq::empty());
            return set;
        },
    };
    let mut i: usize = 0;
    assert(pair_texts(set@) =~= env_sets(list@.take(0)));
    while i < list.len()
        invariant
            i <= list.len(),
            forall|j: int| 0 <= j < list@.len() ==> (#[trigger] list@[j]).wf(),
            pair_texts(set@) == env_sets(list@.take(i as int)),
        decreases list.len() - i,
    {
        let ghost before = pair_texts(set@);
        proof {
            assert(list@.take(i + 1).drop_last() =~= list@.take(i as int));
            assert(list@[i as int].wf());
        }
        match (list[i].0.get(&"name".to_owned()), list[i].0.get(&"value".to_owned())) {
            (Some(name), Some(value)) => {
                set.push((name.clone(), value.clone()));
                proof {
                    assert(pair_texts(set@) =~= before + seq![(name@, value@)]);
                }
            },
            _ => {
                assert(before + Seq::<(Seq<char>, Seq<char>)>::empty() =~= before);
            },
        }
        i += 1;
    }
    assert(list@.take(list@.len() as int) =~= list@);
    set
}

/// The texts of a list that may be missing.
pub open spec fn listed(list: Option<Vec<String>>) -> Seq<Seq<char>> {
    match list {
        Some(l) => text::texts(l@),
        None => Seq::empty(),
    }
}

fn copied_list(list: &Option<Vec<String>>) -> (copy: Vec<String>)
    ensures
        text::texts(copy@) == listed(*list),
{
    let mut copy: Vec<String> = Vec::new();
    match list {
        Some(l) => {
            let mut i: usize = 0;
            while i < l.len()
                invariant
                    i <= l.len(),
                    copy@ == l@.take(i as int),
                decreases l.len() - i,
            {
                copy.push(l[i].clone());
                assert(l@.take(i + 1) =~= l@.take(i as int).push(l@[i as int]));
                i += 1;
            }
            assert(l@.take(l@.len() as int) =~= l@);
        },
        None => {},
    }
    assert(text::texts(copy@) =~= listed(*list));
    copy
}

/// A plugin run: what to start, with what in its environment. The variables of `env` are set first,
/// then `info` goes into `KUBERNETES_EXEC_INFO`, then those of `drop_env` are removed.
pub struct ExecInvocation {
    pub command: String,
    pub args: Vec<String>,
    pub env: Vec<(String, String)>,
    pub interactive: bool,
    pub info: ExecCredential,
    pub drop_env: Vec<String>,
}

/// How to run a plugin. There is nothing to run without a command, or where the plugin wants to
/// know a cluster that is not there.
pub fn exec_invocation(plugin: &ExecConfig, cluster: Option<&Cluster>) -> (run: Option<
    ExecInvocation,
>)
    requires
        plugin.wf(),
    ensures
        run is None <==> plugin.command is None || (plugin.provide_cluster_info && cluster is None),
        run matches Some(r) ==> {
            &&& plugin.command matches Some(c) && r.command@ == c@
            &&& text::texts(r.args@) == listed(plugin.args)
            &&& pair_texts(r.env@) == match plugin.env {
                Some(list) => env_sets(list@),
                None => Seq::empty(),
            }
            &&& r.interactive == may_interact(*plugin)
            &&& is_exec_info(*plugin, cluster, r.info)
            &&& text::texts(r.drop_env@) == listed(plugin.drop_env)
        },
{
    let command = match &plugin.command {
        Some(c) => c.clone(),
        None => {
            return None;
        },
    };
    match exec_info(plugin, cluster) {
        Some(info) => Some(
            ExecInvocation {
                command,
                args: copied_list(&plugin.args),
                env: apply_exec_env(&plugin.env),
                interactive: is_interactive(plugin),
                info,
                drop_env: copied_list(&plugin.drop_env),
            },
        ),
        None => None,
    }
}

/// Whether a status brings a token.
pub open spec fn has_token(status: ExecCredentialStatus) -> bool {
    status.token matches Some(t) && t@.len() > 0
}

fn brings_token(status: &ExecCredentialStatus) -> (brings: bool)
    ensures
        brings == has_token(*status),
{
    match &status.token {
        Some(t) => !t.as_str().is_empty(),
        None => false,
    }
}

/// What a plugin run comes to: its status, where it ended well, answered with a credential, and
/// brought a token. `answer` is the credential that its output reads as.
pub fn run_exec_plugin(ended_well: bool, answer: Option<ExecCredential>) -> (status: Option<
    ExecCredentialStatus,
>)
    ensures
        match answer {
            Some(credential) => match credential.status {
                Some(s) => if ended_well && has_token(s) {
                    status == Some(s)
                } else {
                    status is None
                },
                None => status is None,
            },
            None => status is None,
        },
{
    if !ended_well {
        return None;
    }
    match answer {
        Some(credential) => match credential.status {
            Some(s) => if brings_token(&s) {
                Some(s)
            } else {
                None
            },
            None => None,
        },
        None => None,
    }
}

/// The token that a plugin run comes to.
pub fn resolve_exec_token(ended_well: bool, answer: Option<ExecCredential>) -> (token: Option<
    String,
>)
    ensures
        match answer {
            Some(credential) => match credential.status {
                Some(s) => if ended_well && has_token(s) {
                    token == s.token
                } else {
                    token is None
                },
                None => token is None,
            },
            None => token is None,
        },
{
    match run_exec_plugin(ended_well, answer) {
        Some(s) => s.token,
        None => None,
    }
}

/// Whether the expiry that a status names lies far enough ahead of `now`.
pub open spec fn still_valid(status: ExecCredentialStatus, now: EventTime) -> bool {
    match status.expiration_timestamp {
        Some(ts) => match clock::rfc3339_instant(ts@) {
            Some((secs, nanos)) => (EventTime { secs, nanos }).later_by(
                EXPIRY_SKEW_SECS as int,
                now,
            ),
            None => false,
        },
        None => false,
    }
}

/// Whether an expiry lies far enough ahead of `now`.
pub fn expires_late_enough(expiry: EventTime, now: EventTime) -> (late_enough: bool)
    ensures
        late_enough == expiry.later_by(EXPIRY_SKEW_SECS as int, now),
{
    let threshold: i128 = now.secs as i128 + EXPIRY_SKEW_SECS as i128;
    (expiry.secs as i128) > threshold || (expiry.secs as i128 == threshold && expiry.nanos
        > now.nanos)
}

/// Whether a status can still be used at `now`.
pub fn status_valid_at(status: &ExecCredentialStatus, now: EventTime) -> (valid: bool)
    ensures
        valid == still_valid(*status, now),
{
    match &status.expiration_timestamp {
        Some(ts) => match clock::parse_rfc3339(ts.as_str()) {
            Some(expiry) => expires_late_enough(expiry, now),
            None => false,
        },
        None => false,
    }
}

/// Whether a status can still be used, by the system clock: what [`status_valid_at`] says of the
/// instant that the clock shows. Which instant that is is not stated.
pub fn status_still_valid(status: &ExecCredentialStatus) -> (valid: bool)
    ensures
        exists|now: EventTime|
            clock::clock_can_show(now) && valid == #[trigger] still_valid(*status, now),
        status.expiration_timestamp is None ==> !valid,
        status.expiration_timestamp matches Some(ts) ==> clock::rfc3339_instant(ts@) is None
            ==> !valid,
{
    let now = clock::utc_now();
    status_valid_at(status, now)
}

/// The status in a cached credential that is used instead of running the plugin: one that brings a
/// token and is valid at `now`.
pub open spec fn usable_status(cached: Option<ExecCredential>, now: EventTime) -> Option<
    ExecCredentialStatus,
> {
    match cached {
        Some(credential) => match credential.status {
            Some(s) if has_token(s) && still_valid(s, now) => Some(s),
            _ => None,
        },
        None => None,
    }
}

/// The cached status to use instead of running the plugin: one that brings a token and is valid at
/// `now`. `cached` is the credential that the cache file reads as.
pub fn read_cached_status(cached: Option<ExecCredential>, now: EventTime) -> (status: Option<
    ExecCredentialStatus,
>)
    ensures
        status == usable_status(cached, now),
{
    match cached {
        Some(credential) => match credential.status {
            Some(s) => if brings_token(&s) && status_valid_at(&s, now) {
                Some(s)
            } else {
                None
            },
            None => None,
        },
        None => None,
    }
}

/// Whether `credential` is what is written to the cache for a status.
pub open spec fn is_cached_form(
    plugin: ExecConfig,
    status: ExecCredentialStatus,
    credential: ExecCredential,
) -> bool {
    &&& credential.api_version matches Some(v) && v@ == credential_version(plugin.api_version)
    &&& credential.kind matches Some(k) && k@ == "ExecCredential"@
    &&& credential.details is None
    &&& credential.status == Some(status)
}

/// The credential that is written to the cache for a status.
pub fn credential_to_cache(plugin: &ExecConfig, status: ExecCredentialStatus) -> (credential:
    ExecCredential)
    ensures
        is_cached_form(*plugin, status, credential),
{
    ExecCredential {
        api_version: Some(version_or_default(&plugin.api_version)),
        kind: Some("ExecCredential".to_owned()),
        details: None,
        status: Some(status),
    }
}

/// A status that was written to the cache is used from then on, as long as it brings a token and is
/// valid; after that it is not.
pub proof fn law_cached_status_reads_back(
    plugin: ExecConfig,
    credential: ExecCredential,
    status: ExecCredentialStatus,
    now: EventTime,
)
    requires
        is_cached_form(plugin, status, credential),
    ensures
        usable_status(Some(credential), now) == if has_token(status) && still_valid(status, now) {
            Some(status)
        } else {
            None
        },
{
}

/// One thing that goes into the cache key.
#[derive(Debug)]
pub enum KeyPart {
    Text(String),
    Optional(Option<String>),
}

/// What a part stands for: whether it may be missing, and its text.
pub open spec fn part_view(part: KeyPart) -> (bool, Option<Seq<char>>) {
    match part {
        KeyPart::Text(s) => (false, Some(s@)),
        KeyPart::Optional(Some(s)) => (true, Some(s@)),
        KeyPart::Optional(None) => (true, None),
    }
}

/// What the parts stand for.
pub open spec fn part_views(list: Seq<KeyPart>) -> Seq<(bool, Option<Seq<char>>)> {
    list.map_values(|p: KeyPart| part_view(p))
}

/// Each text as a part.
pub open spec fn text_parts(list: Seq<Seq<char>>) -> Seq<(bool, Option<Seq<char>>)> {
    list.map_values(|s: Seq<char>| (false, Some(s)))
}

/// The keys and values of an environment entry, in the order of the keys.
pub open spec fn entry_texts(entries: Seq<(String, String)>) -> Seq<Seq<char>>
    decreases entries.len(),
{
    if entries.len() == 0 {
        Seq::empty()
    } else {
        entry_texts(entries.drop_last()).push(entries.last().0@).push(entries.last().1@)
    }
}

/// The keys and values of all environment entries.
pub open spec fn env_texts(list: Seq<ExecEnvEntry>) -> Seq<Seq<char>>
    decreases list.len(),
{
    if list.len() == 0 {
        Seq::empty()
    } else {
        env_texts(list.drop_last()) + entry_texts(list.last().0.items())
    }
}

/// What makes two plugin configurations different: the server, the version, the command, the
/// arguments, and the environment entries by key order.
pub open spec fn key_parts(server: Seq<char>, plugin: ExecConfig) -> Seq<(bool, Option<Seq<char>>)> {
    seq![
        (false, Some(server)),
        (true, optional_text(plugin.api_version)),
        (true, optional_text(plugin.command)),
    ] + text_parts(listed(plugin.args)) + text_parts(
        match plugin.env {
            Some(list) => env_texts(list@),
            None => Seq::empty(),
        },
    )
}

/// The text of an optional string.
pub open spec fn optional_text(s: Option<String>) -> Option<Seq<char>> {
    match s {
        Some(t) => Some(t@),
        None => None,
    }
}

/// What goes into the cache key, in order.
pub fn cache_key_parts(cluster_server: &str, plugin: &ExecConfig) -> (parts: Vec<KeyPart>)
    requires
        plugin.wf(),
    ensures
        part_views(parts@) == key_parts(cluster_server@, *plugin),
{
    let mut parts: Vec<KeyPart> = Vec::new();
    parts.push(KeyPart::Text(cluster_server.to_owned()));
    parts.push(KeyPart::Optional(plugin.api_version.clone()));
    parts.push(KeyPart::Optional(plugin.command.clone()));
    let ghost head = part_views(parts@);
    assert(head =~= seq![
        (false, Some(cluster_server@)),
        (true, optional_text(plugin.api_version)),
        (true, optional_text(plugin.command)),
    ]);
    match &plugin.args {
        Some(args) => push_texts(&mut parts, args),
        None => {
            assert(head + text_parts(listed(plugin.args)) =~= head);
        },
    }
    let ghost with_args = part_views(parts@);
    assert(with_args == head + text_parts(listed(plugin.args)));
    match &plugin.env {
        Some(list) => push_env(&mut parts, list),
        None => {
            assert(with_args + text_parts(Seq::empty()) =~= with_args);
        },
    }
    parts
}

fn push_texts(parts: &mut Vec<KeyPart>, list: &Vec<String>)
    ensures
        part_views(final(parts)@) == part_views(old(parts)@) + text_parts(text::texts(list@)),
{
    let ghost before = part_views(parts@);
    let ghost all = text_parts(text::texts(list@));
    let mut i: usize = 0;
    assert(before + all.take(0) =~= before);
    while i < list.len()
        invariant
            i <= list.len(),
            all == text_parts(text::texts(list@)),
            part_views(parts@) == before + all.take(i as int),
        decreases list.len() - i,
    {
        let ghost earlier = part_views(parts@);
        parts.push(KeyPart::Text(list[i].clone()));
        proof {
            assert(part_views(parts@) =~= earlier.push((false, Some(list@[i as int]@))));
            assert(all[i as int] == (false, Some(list@[i as int]@)));
            assert(all.take(i + 1) =~= all.take(i as int).push(all[i as int]));
            assert(before + all.take(i + 1) =~= (before + all.take(i as int)).push(all[i as int]));
        }
        i += 1;
    }
    assert(all.take(list.len() as int) =~= all);
}

fn push_env(parts: &mut Vec<KeyPart>, list: &Vec<ExecEnvEntry>)
    requires
        forall|i: int| 0 <= i < list@.len() ==> (#[trigger] list@[i]).wf(),
    ensures
        part_views(final(parts)@) == part_views(old(parts)@) + text_parts(env_texts(list@)),
{
    let ghost before = part_views(parts@);
    let mut i: usize = 0;
    assert(before + text_parts(env_texts(list@.take(0))) =~= before);
    while i < list.len()
        invariant
            i <= list.len(),
            forall|j: int| 0 <= j < list@.len() ==> (#[trigger] list@[j]).wf(),
            part_views(parts@) == before + text_parts(env_texts(list@.take(i as int))),
        decreases list.len() - i,
    {
        let ghost done = env_texts(list@.take(i as int));
        proof {
            assert(list@[i as int].wf());
            assert(list@.take(i + 1).drop_last() =~= list@.take(i as int));
        }
        push_entry(parts, &list[i]);
        proof {
            let here = entry_texts(list@[i as int].0.items());
            assert(text_parts(done + here) =~= text_parts(done) + text_parts(here));
            assert(before + text_parts(done) + text_parts(here) =~= before + text_parts(done + here));
        }
        i += 1;
    }
    assert(list@.take(list@.len() as int) =~= list@);
}

fn push_entry(parts: &mut Vec<KeyPart>, entry: &ExecEnvEntry)
    requires
        entry.wf(),
    ensures
        part_views(final(parts)@) == part_views(old(parts)@) + text_parts(
            entry_texts(entry.0.items()),
        ),
{
    let ghost before = part_views(parts@);
    let ghost items = entry.0.items();
    let n: usize = entry.0.len();
    let mut i: usize = 0;
    assert(before + text_parts(entry_texts(items.take(0))) =~= before);
    while i < n
        invariant
            i <= n,
            n == items.len(),
            items == entry.0.items(),
            part_views(parts@) == before + text_parts(entry_texts(items.take(i as int))),
        decreases n - i,
    {
        let pair = entry.0.entry(i);
        let ghost earlier = part_views(parts@);
        let ghost done = entry_texts(items.take(i as int));
        parts.push(KeyPart::Text(pair.0.clone()));
        parts.push(KeyPart::Text(pair.1.clone()));
        proof {
            assert(items.take(i + 1).drop_last() =~= items.take(i as int));
            assert(part_views(parts@) =~= earlier.push((false, Some(pair.0@))).push(
                (false, Some(pair.1@)),
            ));
            assert(text_parts(done.push(pair.0@).push(pair.1@)) =~= text_parts(done).push(
                (false, Some(pair.0@)),
            ).push((false, Some(pair.1@))));
            assert(before + text_parts(entry_texts(items.take(i + 1))) =~= (before + text_parts(
                done,
            )).push((false, Some(pair.0@))).push((false, Some(pair.1@))));
        }
        i += 1;
    }
    assert(items.take(n as int) =~= items);
}

/// The streaming hasher of `seahash`.
#[verifier::external_type_specification]
#[verifier::external_body]
pub struct ExSeaHasher(seahash::SeaHasher);

/// A streaming hasher together with a record of what it was fed, in order.
///
/// The fields are private and only [`new_hasher`] and [`feed`] make or change one, so `fed` always
/// tells what went into `hasher`.
struct KeyHasher {
    hasher: SeaHasher,
    fed: Ghost<Seq<(bool, Option<Seq<char>>)>>,
}

impl View for KeyHasher {
    type V = Seq<(bool, Option<Seq<char>>)>;

    closed spec fn view(&self) -> Seq<(bool, Option<Seq<char>>)> {
        self.fed@
    }
}

/// The hash that a `seahash::SeaHasher` gives for what it was fed, on a machine with words of so many
/// bits: `std::hash::Hash` feeds a whole word in front of an optional text.
pub uninterp spec fn fed_hash(fed: Seq<(bool, Option<Seq<char>>)>, word_bits: u32) -> u64;

/// `seahash::SeaHasher::new` makes a hasher that was fed nothing.
#[verifier::external_body]
fn new_hasher() -> (hasher: KeyHasher)
    ensures
        hasher@.len() == 0,
{
    KeyHasher { hasher: SeaHasher::new(), fed: Ghost(Seq::empty()) }
}

/// `std::hash::Hash` feeds a text, or an optional text, to a hasher.
#[verifier::external_body]
fn feed(hasher: &mut KeyHasher, part: &KeyPart)
    ensures
        final(hasher)@ == old(hasher)@.push(part_view(*part)),
{
    match part {
        KeyPart::Text(s) => s.hash(&mut hasher.hasher),
        KeyPart::Optional(s) => s.hash(&mut hasher.hasher),
    }
}

/// `std::hash::Hasher::finish` gives the hash of what was fed.
#[verifier::external_body]
fn finish(hasher: &KeyHasher) -> (hash: u64)
    ensures
        hash == fed_hash(hasher@, usize::BITS),
{
    hasher.hasher.finish()
}

/// The cache key of a plugin configuration: the hash of [`cache_key_parts`].
pub fn cache_key(cluster_server: &str, plugin: &ExecConfig) -> (key: u64)
    requires
        plugin.wf(),
    ensures
        key == fed_hash(key_parts(cluster_server@, *plugin), usize::BITS),
{
    let parts = cache_key_parts(cluster_server, plugin);
    let mut hasher = new_hasher();
    let mut i: usize = 0;
    assert(hasher@ =~= part_views(parts@).take(0));
    while i < parts.len()
        invariant
            i <= parts.len(),
            hasher@ == part_views(parts@).take(i as int),
        decreases parts.len() - i,
    {
        feed(&mut hasher, &parts[i]);
        assert(part_views(parts@).take(i + 1) =~= part_views(parts@).take(i as int).push(
            part_view(parts@[i as int]),
        ));
        i += 1;
    }
    assert(part_views(parts@).take(i as int) =~= part_views(parts@));
    finish(&hasher)
}

/// The hexadecimal digit that stands for `d`.
pub open spec fn hex_digit(d: nat) -> char {
    if d < 10 {
        (('0' as nat) + d) as char
    } else {
        (('a' as nat) + d - 10) as char
    }
}

/// `n` in `width` hexadecimal digits.
pub open spec fn hex(n: nat, width: nat) -> Seq<char>
    decreases width,
{
    if width == 0 {
        Seq::empty()
    } else {
        hex(n / 16, (width - 1) as nat).push(hex_digit(n % 16))
    }
}

fn to_hex(n: u64, width: u64) -> (digits: String)
    ensures
        digits@ == hex(n as nat, width as nat),
    decreases width,
{
    if width == 0 {
        return String::new();
    }
    let mut digits = to_hex(n / 16, width - 1);
    let d = (n % 16) as u8;
    let c = if d < 10 {
        (d + 48) as char
    } else {
        (d + 87) as char
    };
    assert(c == hex_digit((n % 16) as nat));
    digits.push(c);
    digits
}

/// The name of the cache file for a key: sixteen hexadecimal digits.
pub fn cache_file_name(key: u64) -> (name: String)
    ensures
        name@ == hex(key as nat, 16),
{
    to_hex(key, 16)
}

/// A plugin may talk to the terminal unless its mode forbids it; one without a mode may.
pub proof fn law_only_never_forbids(plugin: ExecConfig)
    ensures
        !may_interact(plugin) <==> (plugin.interactive_mode matches Some(mode) && mode
            == ExecInteractiveMode::Never),
        plugin.interactive_mode is None ==> may_interact(plugin),
{
}

/// A plugin is told its own version, the cluster as it is configured, and whether it may interact;
/// the answer is left to it.
pub proof fn law_plugin_is_told(plugin: ExecConfig, cluster: Cluster, info: ExecCredential)
    requires
        is_exec_info(plugin, Some(&cluster), info),
    ensures
        info.api_version matches Some(v) && v@ == match plugin.api_version {
            Some(own) => own@,
            None => "client.authentication.k8s.io/v1"@,
        },
        info.status is None,
        info.details matches Some(d) && {
            &&& d.interactive matches Some(b) && b == !(plugin.interactive_mode matches Some(mode)
                && mode == ExecInteractiveMode::Never)
            &&& d.cluster matches Some(told) && told.server == cluster.server
                && told.certificate_authority_data == cluster.certificate_authority_data
                && told.insecure_skip_tls_verify == cluster.insecure_skip_tls_verify
        },
{
}

/// A plugin is told of no cluster where there is none.
pub proof fn law_plugin_without_cluster(plugin: ExecConfig, info: ExecCredential)
    requires
        is_exec_info(plugin, None, info),
    ensures
        info.details matches Some(d) && d.cluster is None && (d.interactive matches Some(b) && b == !(
        plugin.interactive_mode matches Some(mode) && mode == ExecInteractiveMode::Never)),
        info.kind matches Some(k) && k@ == "ExecCredential"@,
{
}

/// Each entry with a name and a value sets that variable, wherever it stands and whatever the others
/// set; an entry that lacks one of them sets none. The order stays.
pub proof fn law_every_entry_is_set(
    before: Seq<ExecEnvEntry>,
    entry: ExecEnvEntry,
    after: Seq<ExecEnvEntry>,
)
    ensures
        env_sets(before.push(entry) + after) == env_sets(before) + (if entry.0@.contains_key(
            seq!["name"@],
        ) && entry.0@.contains_key(seq!["value"@]) {
            seq![(entry.0@[seq!["name"@]]@, entry.0@[seq!["value"@]]@)]
        } else {
            Seq::empty()
        }) + env_sets(after),
    decreases after.len(),
{
    let all = before.push(entry) + after;
    if after.len() == 0 {
        assert(all.drop_last() =~= before);
        assert(all.last() == entry);
        assert(env_sets(before) + entry_sets(entry) + env_sets(after) =~= env_sets(before)
            + entry_sets(entry));
    } else {
        let rest = after.drop_last();
        law_every_entry_is_set(before, entry, rest);
        assert(all.drop_last() =~= before.push(entry) + rest);
        assert(all.last() == after.last());
        assert(env_sets(all) =~= env_sets(before) + entry_sets(entry) + env_sets(after));
    }
}

/// A cached status is used exactly if it brings a token that is not empty and expires more than sixty
/// seconds from now; one whose expiry is missing or does not read is never used.
pub proof fn law_when_a_cached_token_is_used(
    credential: ExecCredential,
    status: ExecCredentialStatus,
    now: EventTime,
)
    requires
        credential.status == Some(status),
        now.nanos < 1_000_000_000,
    ensures
        usable_status(Some(credential), now) matches Some(used) ==> used == status,
        status.token is None ==> usable_status(Some(credential), now) is None,
        status.token matches Some(t) ==> t@.len() == 0 ==> usable_status(Some(credential), now) is None,
        status.expiration_timestamp is None ==> usable_status(Some(credential), now) is None,
        status.expiration_timestamp matches Some(ts) ==> (match clock::rfc3339_instant(ts@) {
            Some((secs, nanos)) => nanos < 1_000_000_000 && (status.token matches Some(t) && t@.len()
                > 0) ==> (usable_status(Some(credential), now) is Some <==> secs * 1_000_000_000
                + nanos > (now.secs + 60) * 1_000_000_000 + now.nanos),
            None => usable_status(Some(credential), now) is None,
        }),
        usable_status(None, now) is None,
{
    if let Some(ts) = status.expiration_timestamp {
        if let Some((secs, nanos)) = clock::rfc3339_instant(ts@) {
            if nanos < 1_000_000_000 {
                clock::law_later_by(EventTime { secs, nanos }, now, 60);
            }
        }
    }
}

/// A token that can be used now could be used at any earlier time.
pub proof fn law_validity_only_ends(status: ExecCredentialStatus, now: EventTime, earlier: EventTime)
    requires
        now.not_before(earlier),
        still_valid(status, now),
    ensures
        still_valid(status, earlier),
{
}

/// Two configurations go by the same parts only if they have the same server, version and command,
/// and the same arguments followed by the same keys and values of the environment.
pub proof fn law_key_tells_configurations_apart(
    server: Seq<char>,
    plugin: ExecConfig,
    other_server: Seq<char>,
    other: ExecConfig,
)
    requires
        key_parts(server, plugin) == key_parts(other_server, other),
    ensures
        server == other_server,
        optional_text(plugin.api_version) == optional_text(other.api_version),
        optional_text(plugin.command) == optional_text(other.command),
        listed(plugin.args) + (match plugin.env {
            Some(list) => env_texts(list@),
            None => Seq::empty(),
        }) == listed(other.args) + (match other.env {
            Some(list) => env_texts(list@),
            None => Seq::empty(),
        }),
{
    let x = key_parts(server, plugin);
    let y = key_parts(other_server, other);
    assert(x[0] == (false, Some(server)) && y[0] == (false, Some(other_server)));
    assert(x[1] == (true, optional_text(plugin.api_version)) && y[1] == (true, optional_text(
        other.api_version,
    )));
    assert(x[2] == (true, optional_text(plugin.command)) && y[2] == (true, optional_text(
        other.command,
    )));
    let a = listed(plugin.args) + (match plugin.env {
        Some(list) => env_texts(list@),
        None => Seq::empty(),
    });
    let b = listed(other.args) + (match other.env {
        Some(list) => env_texts(list@),
        None => Seq::empty(),
    });
    assert(x.skip(3) =~= text_parts(a));
    assert(y.skip(3) =~= text_parts(b));
    assert forall|i: int| 0 <= i < a.len() implies a[i] == b[i] by {
        assert(x.skip(3)[i] == (false, Some(a[i])) && y.skip(3)[i] == (false, Some(b[i])));
    }
    assert(a =~= b);
}

/// The text of a field that may be missing tells whether it is there, and what it is.
pub proof fn law_optional_text(a: Option<String>, b: Option<String>)
    requires
        optional_text(a) == optional_text(b),
    ensures
        a is Some <==> b is Some,
        a matches Some(x) ==> (b matches Some(y) && x@ == y@),
{
}

/// The keys and values of every environment entry count, in the order of the entries and of their
/// keys.
pub proof fn law_every_entry_counts(
    before: Seq<ExecEnvEntry>,
    entry: ExecEnvEntry,
    after: Seq<ExecEnvEntry>,
)
    ensures
        env_texts(before.push(entry) + after) == env_texts(before) + entry_texts(entry.0.items())
            + env_texts(after),
        entry_texts(entry.0.items()).len() == 2 * entry.0.items().len(),
        forall|i: int|
            0 <= i < entry.0.items().len() ==> entry_texts(entry.0.items())[2 * i] == (
            #[trigger] entry.0.items()[i]).0@ && entry_texts(entry.0.items())[2 * i + 1]
                == entry.0.items()[i].1@,
    decreases after.len(),
{
    lemma_entry_texts(entry.0.items());
    let all = before.push(entry) + after;
    if after.len() == 0 {
        assert(all.drop_last() =~= before);
        assert(all.last() == entry);
        assert(env_texts(all) =~= env_texts(before) + entry_texts(entry.0.items()) + env_texts(after));
    } else {
        let rest = after.drop_last();
        law_every_entry_counts(before, entry, rest);
        assert(all.drop_last() =~= before.push(entry) + rest);
        assert(all.last() == after.last());
        assert(env_texts(all) =~= env_texts(before) + entry_texts(entry.0.items()) + env_texts(after));
    }
}

proof fn lemma_entry_texts(items: Seq<(String, String)>)
    ensures
        entry_texts(items).len() == 2 * items.len(),
        forall|i: int|
            0 <= i < items.len() ==> entry_texts(items)[2 * i] == (#[trigger] items[i]).0@
                && entry_texts(items)[2 * i + 1] == items[i].1@,
    decreases items.len(),
{
    if items.len() > 0 {
        let rest = items.drop_last();
        lemma_entry_texts(rest);
        assert forall|i: int| 0 <= i < items.len() implies entry_texts(items)[2 * i] == (
        #[trigger] items[i]).0@ && entry_texts(items)[2 * i + 1] == items[i].1@ by {
            if i < rest.len() {
                assert(rest[i] == items[i]);
            }
        }
    }
}

/// The number that a hexadecimal digit stands for.
pub open spec fn hex_value(c: char) -> int {
    if '0' <= c && c <= '9' {
        c as int - '0' as int
    } else {
        c as int - 'a' as int + 10
    }
}

/// The number that a row of hexadecimal digits stands for.
pub open spec fn hex_number(digits: Seq<char>) -> int
    decreases digits.len(),
{
    if digits.len() == 0 {
        0
    } else {
        16 * hex_number(digits.drop_last()) + hex_value(digits.last())
    }
}

proof fn lemma_hex_reads_back(n: nat, width: nat)
    requires
        n < vstd::arithmetic::power::pow(16, width),
    ensures
        hex(n, width).len() == width,
        hex_number(hex(n, width)) == n,
    decreases width,
{
    reveal(vstd::arithmetic::power::pow);
    if width > 0 {
        let less = (width - 1) as nat;
        assert(vstd::arithmetic::power::pow(16, width) == 16 * vstd::arithmetic::power::pow(16, less));
        assert(n / 16 < vstd::arithmetic::power::pow(16, less));
        lemma_hex_reads_back(n / 16, less);
        assert(hex(n, width).drop_last() =~= hex(n / 16, less));
        assert(hex_value(hex_digit(n % 16)) == n % 16);
    }
}

/// The cache file of a key is named by sixteen hexadecimal digits that read as the key, so two keys
/// never share one.
pub proof fn law_file_name_reads_as_key(key: u64)
    ensures
        hex(key as nat, 16).len() == 16,
        hex_number(hex(key as nat, 16)) == key,
{
    reveal_with_fuel(vstd::arithmetic::power::pow, 17);
    assert(vstd::arithmetic::power::pow(16, 16) == 18_446_744_073_709_551_616int);
    lemma_hex_reads_back(key as nat, 16);
}

/// A list that is there is taken item by item, and one that is missing as empty.
pub proof fn law_listed_items(list: Vec<String>, i: int)
    requires
        0 <= i < list@.len(),
    ensures
        listed(Some(list)).len() == list@.len(),
        listed(Some(list))[i] == list@[i]@,
        listed(None).len() == 0,
{
}

/// What is cached is the status as it came, with the version of the plugin.
pub proof fn law_cached_form(plugin: ExecConfig, status: ExecCredentialStatus, credential: ExecCredential)
    requires
        is_cached_form(plugin, status, credential),
    ensures
        credential.status == Some(status),
        credential.details is None,
        credential.api_version matches Some(v) && v@ == match plugin.api_version {
            Some(own) => own@,
            None => "client.authentication.k8s.io/v1"@,
        },
        credential.kind matches Some(k) && k@ == "ExecCredential"@,
{
}

/// A variable is told by its name and then its value, one for each pair, in their order.
pub proof fn law_pairs_one_by_one(list: Seq<(String, String)>, i: int)
    requires
        0 <= i < list.len(),
    ensures
        pair_texts(list).len() == list.len(),
        pair_texts(list)[i].0 == list[i].0@,
        pair_texts(list)[i].1 == list[i].1@,
{
}

/// A part of the key tells a text that may be missing from one that may not, and a missing one from an
/// empty one.
pub proof fn law_parts_of_the_key(a: KeyPart, b: KeyPart)
    requires
        part_view(a) == part_view(b),
    ensures
        a is Text <==> b is Text,
        a matches KeyPart::Text(x) ==> (b matches KeyPart::Text(y) && x@ == y@),
        a matches KeyPart::Optional(Some(x)) ==> (b matches KeyPart::Optional(Some(y)) && x@ == y@),
        a matches KeyPart::Optional(None) ==> b matches KeyPart::Optional(None),
{
}

} // verus!
