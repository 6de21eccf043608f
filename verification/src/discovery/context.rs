//! Kubeconfig contexts: which file, which context, which namespace, which credentials.

use crate::ordered_map::OrderedMap;
use crate::text;
use vstd::prelude::*;

verus! {

/// Which kubeconfig and which of its contexts to use.
#[derive(Debug)]
pub struct ContextSelector {
    pub kubeconfig_path: Option<String>,
    pub context_name: Option<String>,
}

impl Default for ContextSelector {
    fn default() -> (selector: Self)
        ensures
            selector.kubeconfig_path is None,
            selector.context_name is None,
    {
        ContextSelector { kubeconfig_path: None, context_name: None }
    }
}

/// Why a context could not be used.
#[derive(Debug)]
pub enum ContextError {
    Parse(String),
    ContextNotFound(String),
    Io(String),
    Client(String),
}

impl ContextError {
    /// What the error says.
    pub open spec fn text(&self) -> Seq<char> {
        match self {
            ContextError::Parse(reason) => "kubeconfig parse error: "@ + reason@,
            ContextError::ContextNotFound(name) => "context '"@ + name@
                + "' not found in kubeconfig"@,
            ContextError::Io(reason) => "io error: "@ + reason@,
            ContextError::Client(reason) => "failed to build kubernetes client: "@ + reason@,
        }
    }

    /// What the error says.
    pub fn message(&self) -> (text: String)
        ensures
            text@ == self.text(),
    {
        match self {
            ContextError::Parse(reason) => "kubeconfig parse error: ".to_owned().concat(
                reason.as_str(),
            ),
            ContextError::ContextNotFound(name) => "context '".to_owned().concat(
                name.as_str(),
            ).concat("' not found in kubeconfig"),
            ContextError::Io(reason) => "io error: ".to_owned().concat(reason.as_str()),
            ContextError::Client(reason) => "failed to build kubernetes client: ".to_owned().concat(
                reason.as_str(),
            ),
        }
    }
}

/// Whether an exec plugin may talk to the terminal.
#[derive(Debug, Clone, Copy, PartialEq, Eq, Structural)]
pub enum ExecInteractiveMode {
    Never,
    IfAvailable,
    Always,
}

/// One environment entry of an exec plugin, as the kubeconfig spells it: a map with the keys
/// `name` and `value`.
#[derive(Debug)]
pub struct ExecEnvEntry(pub OrderedMap<String, String>);

impl ExecEnvEntry {
    /// The entry is a map.
    pub open spec fn wf(&self) -> bool {
        self.0.wf()
    }
}

/// An exec credential plugin.
#[derive(Debug)]
pub struct ExecConfig {
    pub api_version: Option<String>,
    pub command: Option<String>,
    pub args: Option<Vec<String>>,
    pub env: Option<Vec<ExecEnvEntry>>,
    pub drop_env: Option<Vec<String>>,
    pub interactive_mode: Option<ExecInteractiveMode>,
    pub provide_cluster_info: bool,
}

impl ExecConfig {
    /// The environment entries are maps.
    pub open spec fn wf(&self) -> bool {
        self.env matches Some(list) ==> forall|i: int|
            0 <= i < list@.len() ==> (#[trigger] list@[i]).wf()
    }
}

/// How to reach a cluster.
#[derive(Debug)]
pub struct Cluster {
    pub server: Option<String>,
    pub certificate_authority_data: Option<String>,
    pub insecure_skip_tls_verify: Option<bool>,
}

/// The credentials of a user, as far as exec plugins go.
#[derive(Debug)]
pub struct AuthInfo {
    pub token: Option<String>,
    pub plugin: Option<ExecConfig>,
}

/// A cluster, a user and a namespace to work in.
#[derive(Debug)]
pub struct Context {
    pub cluster: String,
    pub user: Option<String>,
    pub namespace: Option<String>,
}

/// A context entry of a kubeconfig.
#[derive(Debug)]
pub struct NamedContext {
    pub name: String,
    pub context: Option<Context>,
}

/// A cluster entry of a kubeconfig.
#[derive(Debug)]
pub struct NamedCluster {
    pub name: String,
    pub cluster: Option<Cluster>,
}

/// A user entry of a kubeconfig.
#[derive(Debug)]
pub struct NamedAuthInfo {
    pub name: String,
    pub auth_info: Option<AuthInfo>,
}

/// What the library reads of a kubeconfig.
#[derive(Debug)]
pub struct Kubeconfig {
    pub current_context: Option<String>,
    pub contexts: Vec<NamedContext>,
    pub clusters: Vec<NamedCluster>,
    pub auth_infos: Vec<NamedAuthInfo>,
}

impl Kubeconfig {
    /// The position of the first context of that name.
    pub open spec fn context_at(&self, name: Seq<char>) -> Option<int> {
        self.contexts@.map_values(|c: NamedContext| c.name@).index_of_first(name)
    }

    /// The position of the first cluster of that name.
    pub open spec fn cluster_at(&self, name: Seq<char>) -> Option<int> {
        self.clusters@.map_values(|c: NamedCluster| c.name@).index_of_first(name)
    }

    /// The position of the first user of that name.
    pub open spec fn auth_info_at(&self, name: Seq<char>) -> Option<int> {
        self.auth_infos@.map_values(|u: NamedAuthInfo| u.name@).index_of_first(name)
    }

    /// What the first context of that name says.
    pub open spec fn context_of(&self, name: Seq<char>) -> Option<Context> {
        match self.context_at(name) {
            Some(i) => self.contexts@[i].context,
            None => None,
        }
    }

    /// The cluster that the first context of that name points to.
    pub open spec fn cluster_of(&self, context_name: Seq<char>) -> Option<Cluster> {
        match self.context_of(context_name) {
            Some(context) => match self.cluster_at(context.cluster@) {
                Some(i) => self.clusters@[i].cluster,
                None => None,
            },
            None => None,
        }
    }

    /// The name of the user whose exec plugin gives the credentials for a context. There is one
    /// only where the cluster has a server and the user's first entry has an exec plugin.
    pub open spec fn exec_user(&self, context_name: Seq<char>) -> Option<Seq<char>> {
        match (self.cluster_of(context_name), self.context_of(context_name)) {
            (Some(cluster), Some(context)) => match (cluster.server, context.user) {
                (Some(_), Some(user)) => match self.auth_info_at(user@) {
                    Some(i) => match self.auth_infos@[i].auth_info {
                        Some(info) => if info.plugin is Some {
                            Some(user@)
                        } else {
                            None
                        },
                        None => None,
                    },
                    None => None,
                },
                _ => None,
            },
            _ => None,
        }
    }

    fn find_context(&self, name: &str) -> (at: Option<usize>)
        ensures
            match at {
                Some(i) => i < self.contexts@.len() && self.context_at(name@) == Some(i as int),
                None => self.context_at(name@) is None,
            },
    {
        let ghost names = self.contexts@.map_values(|c: NamedContext| c.name@);
        let mut i: usize = 0;
        while i < self.contexts.len()
            invariant
                i <= self.contexts.len(),
                names == self.contexts@.map_values(|c: NamedContext| c.name@),
                forall|j: int| 0 <= j < i ==> #[trigger] names[j] != name@,
            decreases self.contexts.len() - i,
        {
            assert(names[i as int] == self.contexts@[i as int].name@);
            if text::same(self.contexts[i].name.as_str(), name) {
                proof {
                    text::lemma_first_index(names, name@, i as int);
                }
                return Some(i);
            }
            i += 1;
        }
        proof {
            text::lemma_no_index(names, name@);
        }
        None
    }

    fn find_cluster(&self, name: &str) -> (at: Option<usize>)
        ensures
            match at {
                Some(i) => i < self.clusters@.len() && self.cluster_at(name@) == Some(i as int),
                None => self.cluster_at(name@) is None,
            },
    {
        let ghost names = self.clusters@.map_values(|c: NamedCluster| c.name@);
        let mut i: usize = 0;
        while i < self.clusters.len()
            invariant
                i <= self.clusters.len(),
                names == self.clusters@.map_values(|c: NamedCluster| c.name@),
                forall|j: int| 0 <= j < i ==> #[trigger] names[j] != name@,
            decreases self.clusters.len() - i,
        {
            assert(names[i as int] == self.clusters@[i as int].name@);
            if text::same(self.clusters[i].name.as_str(), name) {
                proof {
                    text::lemma_first_index(names, name@, i as int);
                }
                return Some(i);
            }
            i += 1;
        }
        proof {
            text::lemma_no_index(names, name@);
        }
        None
    }

    fn find_auth_info(&self, name: &str) -> (at: Option<usize>)
        ensures
            match at {
                Some(i) => i < self.auth_infos@.len() && self.auth_info_at(name@) == Some(i as int),
                None => self.auth_info_at(name@) is None,
            },
    {
        let ghost names = self.auth_infos@.map_values(|u: NamedAuthInfo| u.name@);
        let mut i: usize = 0;
        while i < self.auth_infos.len()
            invariant
                i <= self.auth_infos.len(),
                names == self.auth_infos@.map_values(|u: NamedAuthInfo| u.name@),
                forall|j: int| 0 <= j < i ==> #[trigger] names[j] != name@,
            decreases self.auth_infos.len() - i,
        {
            assert(names[i as int] == self.auth_infos@[i as int].name@);
            if text::same(self.auth_infos[i].name.as_str(), name) {
                proof {
                    text::lemma_first_index(names, name@, i as int);
                }
                return Some(i);
            }
            i += 1;
        }
        proof {
            text::lemma_no_index(names, name@);
        }
        None
    }
}

/// A path below `home`.
pub open spec fn below(home: Seq<char>, rest: Seq<char>) -> Seq<char> {
    if home.len() == 0 {
        rest
    } else if home.last() == '/' {
        home + rest
    } else {
        home.push('/') + rest
    }
}

/// Where the kubeconfig is: the selector's path, the first entry of `KUBECONFIG`, or
/// `.kube/config` below the home directory.
pub fn kubeconfig_path(
    selector: &ContextSelector,
    kubeconfig_env: Option<&str>,
    home: Option<&str>,
) -> (path: Result<String, ContextError>)
    ensures
        match selector.kubeconfig_path {
            Some(p) => path matches Ok(chosen) && chosen@ == p@,
            None => match kubeconfig_env {
                Some(env) => if text::parts(env@, ':')[0].len() > 0 {
                    path matches Ok(chosen) && chosen@ == text::parts(env@, ':')[0]
                } else {
                    path matches Err(ContextError::Parse(e)) && e@ == "empty KUBECONFIG"@
                },
                None => path matches Ok(chosen) && chosen@ == below(
                    match home {
                        Some(h) => h@,
                        None => Seq::empty(),
                    },
                    ".kube/config"@,
                ),
            },
        },
{
    match &selector.kubeconfig_path {
        Some(p) => {
            return Ok(p.clone());
        },
        None => {},
    }
    match kubeconfig_env {
        Some(env) => {
            let entries = text::split(env, ':');
            assert(text::texts(entries@)[0] == entries@[0]@);
            if entries[0].as_str().is_empty() {
                return Err(ContextError::Parse("empty KUBECONFIG".to_owned()));
            }
            return Ok(entries[0].clone());
        },
        None => {},
    }
    let home_dir = match home {
        Some(h) => h.to_owned(),
        None => String::new(),
    };
    let chars = text::to_chars(home_dir.as_str());
    if chars.len() == 0 {
        return Ok(".kube/config".to_owned());
    }
    let mut path = home_dir;
    if chars[chars.len() - 1] != '/' {
        path.push('/');
    }
    path.append(".kube/config");
    Ok(path)
}

/// The context to use: the selector's, or the kubeconfig's current one, if it is there.
pub open spec fn wanted_context(cfg: Kubeconfig, selector: ContextSelector) -> Option<Seq<char>> {
    match selector.context_name {
        Some(name) => Some(name@),
        None => match cfg.current_context {
            Some(name) => Some(name@),
            None => None,
        },
    }
}

/// Picks the context to use.
pub fn pick_context_name<'a>(cfg: &'a Kubeconfig, selector: &'a ContextSelector) -> (name: Result<
    &'a str,
    ContextError,
>)
    ensures
        match wanted_context(*cfg, *selector) {
            Some(want) => if cfg.context_at(want) is Some {
                name matches Ok(picked) && picked@ == want
            } else {
                name matches Err(ContextError::ContextNotFound(n)) && n@ == want
            },
            None => name matches Err(ContextError::ContextNotFound(n)) && n@ == "(none)"@,
        },
{
    let want = match &selector.context_name {
        Some(name) => name.as_str(),
        None => match &cfg.current_context {
            Some(name) => name.as_str(),
            None => {
                return Err(ContextError::ContextNotFound("(none)".to_owned()));
            },
        },
    };
    match cfg.find_context(want) {
        Some(_) => Ok(want),
        None => Err(ContextError::ContextNotFound(want.to_owned())),
    }
}

/// The namespace that a context works in: its own unless it is blank, `default` otherwise.
pub open spec fn namespace_of(context: Option<Context>) -> Seq<char> {
    match context {
        Some(c) => match c.namespace {
            Some(ns) => if text::trimmed(ns@).len() == 0 {
                "default"@
            } else {
                ns@
            },
            None => "default"@,
        },
        None => "default"@,
    }
}

/// Whether `namespace` is what the context to use gives, or the error that there is none.
pub open spec fn is_default_namespace(
    cfg: Kubeconfig,
    selector: ContextSelector,
    namespace: Result<String, ContextError>,
) -> bool {
    match wanted_context(cfg, selector) {
        Some(want) => if cfg.context_at(want) is Some {
            namespace matches Ok(ns) && ns@ == namespace_of(cfg.context_of(want))
        } else {
            namespace matches Err(ContextError::ContextNotFound(n)) && n@ == want
        },
        None => namespace matches Err(ContextError::ContextNotFound(n)) && n@ == "(none)"@,
    }
}

/// Namespace for the active context: context `namespace` when set, otherwise `"default"`.
pub fn default_namespace(cfg: &Kubeconfig, selector: &ContextSelector) -> (namespace: Result<
    String,
    ContextError,
>)
    ensures
        is_default_namespace(*cfg, *selector, namespace),
{
    let name = match pick_context_name(cfg, selector) {
        Ok(name) => name,
        Err(e) => {
            return Err(e);
        },
    };
    let at = match cfg.find_context(name) {
        Some(at) => at,
        None => {
            return Err(ContextError::ContextNotFound(name.to_owned()));
        },
    };
    match &cfg.contexts[at].context {
        Some(context) => match &context.namespace {
            Some(ns) => if text::trim(ns.as_str()).is_empty() {
                Ok("default".to_owned())
            } else {
                Ok(ns.clone())
            },
            None => Ok("default".to_owned()),
        },
        None => Ok("default".to_owned()),
    }
}

/// The cluster that a context points to.
fn cluster_for_context<'a>(kubeconfig: &'a Kubeconfig, ctx_name: &str) -> (cluster: Option<
    &'a Cluster,
>)
    ensures
        match cluster {
            Some(c) => kubeconfig.cluster_of(ctx_name@) == Some(*c),
            None => kubeconfig.cluster_of(ctx_name@) is None,
        },
{
    match kubeconfig.find_context(ctx_name) {
        Some(at) => match &kubeconfig.contexts[at].context {
            Some(context) => match kubeconfig.find_cluster(context.cluster.as_str()) {
                Some(i) => kubeconfig.clusters[i].cluster.as_ref(),
                None => None,
            },
            None => None,
        },
        None => None,
    }
}

/// What has to be run to get the credentials of a context.
pub struct ExecTarget<'a> {
    pub user: &'a str,
    pub server: &'a str,
    pub plugin: &'a ExecConfig,
    pub cluster: &'a Cluster,
}

/// The exec plugin that gives the credentials of a context, if one is needed.
pub fn exec_target<'a>(kubeconfig: &'a Kubeconfig, ctx_name: &str) -> (target: Option<
    ExecTarget<'a>,
>)
    ensures
        match target {
            Some(t) => {
                &&& kubeconfig.exec_user(ctx_name@) == Some(t.user@)
                &&& kubeconfig.cluster_of(ctx_name@) == Some(*t.cluster)
                &&& t.cluster.server matches Some(s) && s@ == t.server@
                &&& kubeconfig.auth_info_at(t.user@) matches Some(i)
                    && kubeconfig.auth_infos@[i].auth_info matches Some(info)
                    && info.plugin == Some(*t.plugin)
            },
            None => kubeconfig.exec_user(ctx_name@) is None,
        },
{
    let cluster = match cluster_for_context(kubeconfig, ctx_name) {
        Some(cluster) => cluster,
        None => {
            return None;
        },
    };
    let server = match &cluster.server {
        Some(server) => server.as_str(),
        None => {
            return None;
        },
    };
    let user = match kubeconfig.find_context(ctx_name) {
        Some(at) => match &kubeconfig.contexts[at].context {
            Some(context) => match &context.user {
                Some(user) => user.as_str(),
                None => {
                    return None;
                },
            },
            None => {
                return None;
            },
        },
        None => {
            return None;
        },
    };
    match kubeconfig.find_auth_info(user) {
        Some(at) => match &kubeconfig.auth_infos[at].auth_info {
            Some(info) => match &info.plugin {
                Some(plugin) => Some(ExecTarget { user, server, plugin, cluster }),
                None => None,
            },
            None => None,
        },
        None => None,
    }
}

/// Whether `after` is `before` with a token for the context. The user of the context gets it in
/// place of the plugin; where there is no plugin or no token, nothing changes.
pub open spec fn takes_token(
    before: Kubeconfig,
    ctx_name: Seq<char>,
    token: Option<String>,
    after: Kubeconfig,
) -> bool {
    &&& after.current_context == before.current_context
    &&& after.contexts == before.contexts
    &&& after.clusters == before.clusters
    &&& match (before.exec_user(ctx_name), token) {
        (Some(user), Some(t)) => {
            let i = before.auth_info_at(user)->0;
            &&& 0 <= i < before.auth_infos@.len()
            &&& after.auth_infos@.len() == before.auth_infos@.len()
            &&& forall|j: int|
                0 <= j < before.auth_infos@.len() && j != i ==> #[trigger] after.auth_infos@[j]
                    == before.auth_infos@[j]
            &&& after.auth_infos@[i].name == before.auth_infos@[i].name
            &&& after.auth_infos@[i].auth_info == Some(
                (AuthInfo { token: Some(t), plugin: None }),
            )
        },
        _ => after.auth_infos == before.auth_infos,
    }
}

/// Puts the token that the exec plugin of a context gave in the plugin's place. Without a plugin or
/// without a token the kubeconfig stays as it is.
pub fn apply_exec_token_to_kubeconfig(
    kubeconfig: &mut Kubeconfig,
    ctx_name: &str,
    token: Option<String>,
)
    ensures
        takes_token(*old(kubeconfig), ctx_name@, token, *final(kubeconfig)),
{
    let at = match exec_target(kubeconfig, ctx_name) {
        Some(target) => match kubeconfig.find_auth_info(target.user) {
            Some(at) => at,
            None => {
                return ;
            },
        },
        None => {
            return ;
        },
    };
    match token {
        Some(t) => {
            let name = kubeconfig.auth_infos[at].name.clone();
            kubeconfig.auth_infos.set(
                at,
                NamedAuthInfo { name, auth_info: Some(AuthInfo { token: Some(t), plugin: None }) },
            );
        },
        None => {},
    }
}

/// Once a context has its token, there is no plugin left to run for it, and taking a token again
/// changes nothing.
pub proof fn law_token_replaces_plugin(
    before: Kubeconfig,
    after: Kubeconfig,
    again: Kubeconfig,
    ctx_name: Seq<char>,
    token: String,
    second: Option<String>,
)
    requires
        takes_token(before, ctx_name, Some(token), after),
        takes_token(after, ctx_name, second, again),
    ensures
        after.exec_user(ctx_name) is None,
        again == after,
{
    match before.exec_user(ctx_name) {
        Some(user) => {
            let names = before.auth_infos@.map_values(|u: NamedAuthInfo| u.name@);
            names.index_of_first_ensures(user);
            assert(after.auth_infos@.map_values(|u: NamedAuthInfo| u.name@) =~= names);
            assert(after.auth_info_at(user) == before.auth_info_at(user));
        },
        None => {
            assert(after == before);
        },
    }
}

/// Of several contexts of the same name the first counts; a name that no context has, has none.
pub proof fn law_first_context_counts(cfg: Kubeconfig, name: Seq<char>, i: int)
    ensures
        0 <= i < cfg.contexts@.len() && cfg.contexts@[i].name@ == name && (forall|j: int|
            0 <= j < i ==> (#[trigger] cfg.contexts@[j]).name@ != name) ==> cfg.context_at(name) == Some(
            i,
        ) && cfg.context_of(name) == cfg.contexts@[i].context,
        (forall|j: int| 0 <= j < cfg.contexts@.len() ==> (#[trigger] cfg.contexts@[j]).name@ != name)
            ==> cfg.context_at(name) is None && cfg.context_of(name) is None,
{
    let names = cfg.contexts@.map_values(|c: NamedContext| c.name@);
    if 0 <= i < cfg.contexts@.len() && cfg.contexts@[i].name@ == name && (forall|j: int|
        0 <= j < i ==> (#[trigger] cfg.contexts@[j]).name@ != name) {
        assert forall|j: int| 0 <= j < i implies #[trigger] names[j] != name by {
            assert(cfg.contexts@[j].name@ != name);
        }
        text::lemma_first_index(names, name, i);
    }
    if forall|j: int| 0 <= j < cfg.contexts@.len() ==> (#[trigger] cfg.contexts@[j]).name@ != name {
        assert forall|j: int| 0 <= j < names.len() implies #[trigger] names[j] != name by {
            assert(cfg.contexts@[j].name@ != name);
        }
        text::lemma_no_index(names, name);
    }
}

/// The namespace to work in is that of the context that was asked for, and of the current one where
/// none was. It is used as it stands unless it is missing or blank; then it is `default`.
pub proof fn law_namespace_of_the_context(
    cfg: Kubeconfig,
    selector: ContextSelector,
    i: int,
    want: Seq<char>,
    namespace: Result<String, ContextError>,
)
    requires
        match selector.context_name {
            Some(name) => name@ == want,
            None => cfg.current_context matches Some(name) && name@ == want,
        },
        0 <= i < cfg.contexts@.len(),
        cfg.contexts@[i].name@ == want,
        forall|j: int| 0 <= j < i ==> (#[trigger] cfg.contexts@[j]).name@ != want,
        is_default_namespace(cfg, selector, namespace),
    ensures
        namespace matches Ok(ns) && match cfg.contexts@[i].context {
            Some(context) => match context.namespace {
                Some(own) => if text::trimmed(own@).len() > 0 {
                    ns@ == own@
                } else {
                    ns@ == "default"@
                },
                None => ns@ == "default"@,
            },
            None => ns@ == "default"@,
        },
{
    law_first_context_counts(cfg, want, i);
}

/// A context that is not there is reported by its name, and a kubeconfig without a current context
/// where none was asked for as having none.
pub proof fn law_missing_context_is_reported(
    cfg: Kubeconfig,
    selector: ContextSelector,
    namespace: Result<String, ContextError>,
)
    requires
        is_default_namespace(cfg, selector, namespace),
    ensures
        selector.context_name is None && cfg.current_context is None ==> (
        namespace matches Err(ContextError::ContextNotFound(n)) && n@ == "(none)"@),
        selector.context_name matches Some(name) ==> (forall|j: int|
            0 <= j < cfg.contexts@.len() ==> (#[trigger] cfg.contexts@[j]).name@ != name@) ==> (
        namespace matches Err(ContextError::ContextNotFound(n)) && n@ == name@),
{
    if let Some(name) = selector.context_name {
        law_first_context_counts(cfg, name@, 0);
    }
}

/// The plugin of a context is that of its user: the first user of the name that the first context of
/// that name gives. It is run only where the cluster of that context has a server.
pub proof fn law_plugin_of_the_context(
    cfg: Kubeconfig,
    name: Seq<char>,
    c: int,
    k: int,
    u: int,
    context: Context,
    cluster: Cluster,
    user: String,
    info: AuthInfo,
)
    requires
        0 <= c < cfg.contexts@.len(),
        cfg.contexts@[c].name@ == name,
        forall|j: int| 0 <= j < c ==> (#[trigger] cfg.contexts@[j]).name@ != name,
        cfg.contexts@[c].context == Some(context),
        0 <= k < cfg.clusters@.len(),
        cfg.clusters@[k].name@ == context.cluster@,
        forall|j: int| 0 <= j < k ==> (#[trigger] cfg.clusters@[j]).name@ != context.cluster@,
        cfg.clusters@[k].cluster == Some(cluster),
        context.user == Some(user),
        0 <= u < cfg.auth_infos@.len(),
        cfg.auth_infos@[u].name@ == user@,
        forall|j: int| 0 <= j < u ==> (#[trigger] cfg.auth_infos@[j]).name@ != user@,
        cfg.auth_infos@[u].auth_info == Some(info),
    ensures
        cfg.cluster_of(name) == Some(cluster),
        cfg.auth_info_at(user@) == Some(u),
        cfg.exec_user(name) == if cluster.server is Some && info.plugin is Some {
            Some(user@)
        } else {
            None
        },
{
    law_first_context_counts(cfg, name, c);
    let clusters = cfg.clusters@.map_values(|x: NamedCluster| x.name@);
    assert forall|j: int| 0 <= j < k implies #[trigger] clusters[j] != context.cluster@ by {
        assert(cfg.clusters@[j].name@ != context.cluster@);
    }
    text::lemma_first_index(clusters, context.cluster@, k);
    let users = cfg.auth_infos@.map_values(|x: NamedAuthInfo| x.name@);
    assert forall|j: int| 0 <= j < u implies #[trigger] users[j] != user@ by {
        assert(cfg.auth_infos@[j].name@ != user@);
    }
    text::lemma_first_index(users, user@, u);
}

/// A token changes the credentials of the user of the context alone, and without a token nothing
/// changes.
pub proof fn law_token_touches_one_user(
    before: Kubeconfig,
    after: Kubeconfig,
    ctx_name: Seq<char>,
    token: Option<String>,
    j: int,
)
    requires
        takes_token(before, ctx_name, token, after),
        0 <= j < before.auth_infos@.len(),
    ensures
        after.auth_infos@.len() == before.auth_infos@.len(),
        after.auth_infos@[j].name@ == before.auth_infos@[j].name@,
        token is None || before.exec_user(ctx_name) is None ==> after == before,
        before.exec_user(ctx_name) != Some(before.auth_infos@[j].name@) ==> after.auth_infos@[j]
            == before.auth_infos@[j],
        before.exec_user(ctx_name) matches Some(user) ==> (token matches Some(t) ==> (
        before.auth_info_at(user) == Some(j) ==> (after.auth_infos@[j].auth_info matches Some(info)
            && info.token == Some(t) && info.plugin is None))),
{
    match before.exec_user(ctx_name) {
        Some(user) => {
            let names = before.auth_infos@.map_values(|x: NamedAuthInfo| x.name@);
            names.index_of_first_ensures(user);
            let i = before.auth_info_at(user)->0;
            assert(names[i] == user);
            assert(before.auth_infos@[i].name@ == user);
        },
        None => {},
    }
}

/// A path below a directory is the directory, one slash and the rest; the slash that the directory
/// ends with counts.
pub proof fn law_path_below(home: Seq<char>, rest: Seq<char>)
    ensures
        home.len() > 0 && home.last() != '/' ==> below(home, rest) == home + seq!['/'] + rest,
        home.len() > 0 && home.last() == '/' ==> below(home, rest) == home + rest,
        below(Seq::empty(), rest) == rest,
        rest.is_suffix_of(below(home, rest)),
{
    let path = below(home, rest);
    if home.len() > 0 && home.last() != '/' {
        assert(path =~= home + seq!['/'] + rest);
    }
    assert(path.skip(path.len() - rest.len()) =~= rest);
}

/// What an error says tells its sort, and ends with the reason or names the context.
pub proof fn law_what_context_errors_say(reason: String)
    ensures
        ContextError::Parse(reason).text() == "kubeconfig parse error: "@ + reason@,
        ContextError::ContextNotFound(reason).text() == "context '"@ + reason@
            + "' not found in kubeconfig"@,
        ContextError::Io(reason).text() == "io error: "@ + reason@,
        ContextError::Client(reason).text() == "failed to build kubernetes client: "@ + reason@,
{
}

/// There is no plugin to run for a context that is not there, that says nothing, that names no user, or
/// whose cluster or user the kubeconfig does not have.
pub proof fn law_no_plugin_without_its_parts(cfg: Kubeconfig, name: Seq<char>)
    ensures
        cfg.context_of(name) is None ==> cfg.cluster_of(name) is None && cfg.exec_user(name) is None,
        cfg.context_of(name) matches Some(context) ==> {
            &&& context.user is None ==> cfg.exec_user(name) is None
            &&& (forall|j: int|
                0 <= j < cfg.clusters@.len() ==> (#[trigger] cfg.clusters@[j]).name@
                    != context.cluster@) ==> cfg.cluster_of(name) is None && cfg.exec_user(name) is None
            &&& context.user matches Some(user) ==> ((forall|j: int|
                0 <= j < cfg.auth_infos@.len() ==> (#[trigger] cfg.auth_infos@[j]).name@ != user@)
                ==> cfg.exec_user(name) is None)
        },
{
    if let Some(context) = cfg.context_of(name) {
        let clusters = cfg.clusters@.map_values(|x: NamedCluster| x.name@);
        if forall|j: int|
            0 <= j < cfg.clusters@.len() ==> (#[trigger] cfg.clusters@[j]).name@ != context.cluster@ {
            assert forall|j: int| 0 <= j < clusters.len() implies #[trigger] clusters[j]
                != context.cluster@ by {
                assert(cfg.clusters@[j].name@ != context.cluster@);
            }
            text::lemma_no_index(clusters, context.cluster@);
        }
        if let Some(user) = context.user {
            let users = cfg.auth_infos@.map_values(|x: NamedAuthInfo| x.name@);
            if forall|j: int|
                0 <= j < cfg.auth_infos@.len() ==> (#[trigger] cfg.auth_infos@[j]).name@ != user@ {
                assert forall|j: int| 0 <= j < users.len() implies #[trigger] users[j] != user@ by {
                    assert(cfg.auth_infos@[j].name@ != user@);
                }
                text::lemma_no_index(users, user@);
            }
        }
    }
}

} // verus!
