//! KasperKonnect mirroring: the ids local messages and tasks are mirrored
//! under, what an environment registers with, and the runtime status a
//! probe of the daemon yields.
use vstd::prelude::*;
use crate::db::{clone_opt, opt_view};
use crate::text::{
    chars_of, concat2, concat3, decimal_int, format_i64, is_white_space, owned, string_of_range,
    trim, trim_seq, str_eq,
};

verus! {

broadcast use vstd::string::group_string_axioms;

/// Where the daemon listens when no address is configured.
pub const DEFAULT_BASE_URL: &'static str = "http://127.0.0.1:4077";

/// The environment variable that configures the daemon's address.
pub const BASE_URL_ENV: &'static str = "GHOSTTEAM_KASPERKONNECT_URL";

/// Metadata sent along with a mirrored message.
#[derive(Debug)]
pub struct MessageMetadata {
    pub trace_id: Option<String>,
    pub priority: String,
    pub created_at: String,
}

/// What an environment registers with.
#[derive(Debug)]
pub struct RegisterEnvironmentRequest {
    pub id: String,
    pub display_name: String,
    pub kind: String,
    pub version: Option<String>,
    pub pid: Option<i64>,
    pub endpoint: Option<String>,
    pub capabilities: Vec<String>,
}

/// The daemon's health report.
#[derive(Debug)]
pub struct HealthResponse {
    pub status: String,
    pub service: String,
    pub version: String,
    pub bind: String,
}

/// An environment known to the daemon.
#[derive(Debug)]
pub struct Environment {
    pub id: String,
    pub display_name: String,
    pub kind: String,
    pub version: Option<String>,
    pub pid: Option<i64>,
    pub endpoint: Option<String>,
    pub capabilities: Vec<String>,
    pub status: String,
    pub registered_at: String,
    pub last_seen_at: String,
}

/// What a probe of the daemon found.
#[derive(Debug)]
pub struct RuntimeStatus {
    pub reachable: bool,
    pub base_url: String,
    pub health: Option<HealthResponse>,
    pub environments: Vec<Environment>,
    pub registered: Vec<Environment>,
}

/// The characters of each string of a list.
pub open spec fn strings_view(v: Seq<String>) -> Seq<Seq<char>> {
    v.map_values(|s: String| s@)
}

/// A copy of a list of strings.
pub fn clone_strings(v: &Vec<String>) -> (r: Vec<String>)
    ensures
        r@ == v@,
{
    let mut r: Vec<String> = Vec::new();
    let mut k: usize = 0;
    while k < v.len()
        invariant
            k <= v@.len(),
            r@ == v@.take(k as int),
        decreases v.len() - k,
    {
        r.push(v[k].clone());
        k = k + 1;
        assert(r@ =~= v@.take(k as int));
    }
    assert(v@.take(v@.len() as int) =~= v@);
    r
}

impl HealthResponse {
    /// A copy of the report.
    pub fn duplicate(&self) -> (r: Self)
        ensures
            r == *self,
    {
        HealthResponse {
            status: self.status.clone(),
            service: self.service.clone(),
            version: self.version.clone(),
            bind: self.bind.clone(),
        }
    }
}

/// `a` and `b` describe the same environment.
pub open spec fn same_environment(a: Environment, b: Environment) -> bool {
    &&& a.id == b.id
    &&& a.display_name == b.display_name
    &&& a.kind == b.kind
    &&& a.version == b.version
    &&& a.pid == b.pid
    &&& a.endpoint == b.endpoint
    &&& a.capabilities@ == b.capabilities@
    &&& a.status == b.status
    &&& a.registered_at == b.registered_at
    &&& a.last_seen_at == b.last_seen_at
}

impl Environment {
    /// A copy of the environment.
    pub fn duplicate(&self) -> (r: Self)
        ensures
            same_environment(r, *self),
    {
        Environment {
            id: self.id.clone(),
            display_name: self.display_name.clone(),
            kind: self.kind.clone(),
            version: clone_opt(&self.version),
            pid: self.pid,
            endpoint: clone_opt(&self.endpoint),
            capabilities: clone_strings(&self.capabilities),
            status: self.status.clone(),
            registered_at: self.registered_at.clone(),
            last_seen_at: self.last_seen_at.clone(),
        }
    }
}


/// The id a local message is mirrored under.
pub open spec fn remote_message_id_text(local_id: int) -> Seq<char> {
    "ghostteam-msg-"@ + decimal_int(local_id)
}

/// The id a local task is mirrored under.
pub open spec fn remote_task_id_text(local_id: int) -> Seq<char> {
    "ghostteam-task-"@ + decimal_int(local_id)
}

/// The id the local message `local_id` is mirrored under.
pub fn remote_message_id(local_id: i64) -> (r: String)
    ensures
        r@ == remote_message_id_text(local_id as int),
{
    let d = format_i64(local_id);
    concat2("ghostteam-msg-", d.as_str())
}

/// The id the local task `local_id` is mirrored under.
pub fn remote_task_id(local_id: i64) -> (r: String)
    ensures
        r@ == remote_task_id_text(local_id as int),
{
    let d = format_i64(local_id);
    concat2("ghostteam-task-", d.as_str())
}

/// The capabilities an agent registers with.
pub open spec fn capabilities_text(role: Seq<char>, backend: Seq<char>) -> Seq<Seq<char>> {
    seq!["workspace.task"@, "runtime.context"@, "agent.role."@ + role, "agent.backend."@ + backend]
}

/// The capabilities an agent with this role and backend registers with.
pub fn capabilities_for(role: &str, backend: &str) -> (r: Vec<String>)
    ensures
        strings_view(r@) == capabilities_text(role@, backend@),
{
    let mut caps: Vec<String> = Vec::new();
    caps.push(owned("workspace.task"));
    caps.push(owned("runtime.context"));
    caps.push(concat2("agent.role.", role));
    caps.push(concat2("agent.backend.", backend));
    assert(strings_view(caps@) =~= capabilities_text(role@, backend@));
    caps
}

/// `s` up to its first line feed.
pub open spec fn line_prefix(s: Seq<char>) -> Seq<char>
    decreases s.len(),
{
    if s.len() == 0 {
        s
    } else if s[0] == '\n' {
        Seq::empty()
    } else {
        seq![s[0]] + line_prefix(s.drop_first())
    }
}

/// The title a task is handed off under: its first line, trimmed, or
/// `GhostTeam task` when that is empty.
pub open spec fn first_line_text(input: Seq<char>) -> Seq<char> {
    let line = trim_seq(line_prefix(input));
    if line.len() == 0 {
        "GhostTeam task"@
    } else {
        line
    }
}

proof fn lemma_line_prefix_index(s: Seq<char>, i: int)
    requires
        0 <= i <= s.len(),
        forall|k: int| 0 <= k < i ==> s[k] != '\n',
        i == s.len() || s[i] == '\n',
    ensures
        line_prefix(s) == s.take(i),
    decreases s.len(),
{
    if s.len() > 0 && i > 0 {
        lemma_line_prefix_index(s.drop_first(), i - 1);
        assert(s.take(i) =~= seq![s[0]] + s.drop_first().take(i - 1));
    } else if s.len() > 0 {
        assert(s.take(i) =~= Seq::<char>::empty());
    }
}

/// The title a task description is handed off under.
pub fn first_line(input: &str) -> (r: String)
    ensures
        r@ == first_line_text(input@),
{
    let v = chars_of(input);
    let mut i: usize = 0;
    while i < v.len() && v[i] != '\n'
        invariant
            i <= v@.len(),
            forall|k: int| 0 <= k < i ==> v@[k] != '\n',
        decreases v.len() - i,
    {
        i = i + 1;
    }
    proof {
        lemma_line_prefix_index(v@, i as int);
    }
    let line = string_of_range(&v, 0, i);
    assert(v@.subrange(0, i as int) =~= v@.take(i as int));
    let t = trim(line.as_str());
    if t.as_str().is_empty() {
        owned("GhostTeam task")
    } else {
        t
    }
}

/// The metadata a mirrored message is sent with: no trace id, normal
/// priority, created at `now`.
pub fn message_metadata(now: &str) -> (r: MessageMetadata)
    ensures
        r.trace_id is None,
        r.priority@ == "normal"@,
        r.created_at@ == now@,
{
    MessageMetadata { trace_id: None, priority: owned("normal"), created_at: owned(now) }
}

/// What an agent registers its environment with.
pub fn register_request(id: &str, role: &str, backend: &str, version: &str, pid: i64) -> (r:
    RegisterEnvironmentRequest)
    ensures
        r.id@ == id@,
        r.display_name@ == "GhostTeam "@ + id@,
        r.kind@ == role@,
        opt_view(r.version) == Some(version@),
        r.pid == Some(pid),
        opt_view(r.endpoint) == Some("ghostteam://"@ + id@),
        strings_view(r.capabilities@) == capabilities_text(role@, backend@),
{
    RegisterEnvironmentRequest {
        id: owned(id),
        display_name: concat2("GhostTeam ", id),
        kind: owned(role),
        version: Some(owned(version)),
        pid: Some(pid),
        endpoint: Some(concat2("ghostteam://", id)),
        capabilities: capabilities_for(role, backend),
    }
}

/// Whether `id` is one of `ids`.
pub open spec fn id_listed(ids: Seq<Seq<char>>, id: Seq<char>) -> bool {
    exists|k: int| 0 <= k < ids.len() && ids[k] == id
}

/// The environments of `envs` whose id is listed, in order.
pub open spec fn registered_of(envs: Seq<Environment>, ids: Seq<Seq<char>>) -> Seq<Environment>
    decreases envs.len(),
{
    if envs.len() == 0 {
        Seq::empty()
    } else {
        let rest = registered_of(envs.drop_last(), ids);
        if id_listed(ids, envs.last().id@) {
            rest.push(envs.last())
        } else {
            rest
        }
    }
}

/// Whether `id` is one of `ids`.
fn is_listed(ids: &Vec<String>, id: &str) -> (r: bool)
    ensures
        r == id_listed(strings_view(ids@), id@),
{
    let mut k: usize = 0;
    while k < ids.len()
        invariant
            k <= ids@.len(),
            forall|j: int| 0 <= j < k ==> ids@[j]@ != id@,
        decreases ids.len() - k,
    {
        if str_eq(ids[k].as_str(), id) {
            assert(strings_view(ids@)[k as int] == id@);
            return true;
        }
        k = k + 1;
    }
    assert forall|j: int| 0 <= j < strings_view(ids@).len() implies strings_view(ids@)[j] != id@ by {
        assert(strings_view(ids@)[j] == ids@[j]@);
    }
    false
}

/// The runtime status a probe at `base_url` found: reachable when the
/// health check answered, with the environments the daemon listed and,
/// among them, those registered under one of `registered_ids`; nothing
/// else when it did not answer.
pub fn runtime_status(
    base_url: &str,
    health: Option<HealthResponse>,
    environments: Vec<Environment>,
    registered_ids: &Vec<String>,
) -> (r: RuntimeStatus)
    ensures
        r.reachable == health is Some,
        r.base_url@ == base_url@,
        r.health == health,
        health is Some ==> r.environments@ == environments@,
        health is Some ==> r.registered@.len() == registered_of(environments@, strings_view(registered_ids@)).len(),
        health is Some ==> forall|k: int| 0 <= k < r.registered@.len() ==> same_environment(#[trigger] r.registered@[k], registered_of(environments@, strings_view(registered_ids@))[k]),
        health is None ==> r.environments@.len() == 0 && r.registered@.len() == 0,
{
    match health {
        Some(h) => {
            let ghost ids = strings_view(registered_ids@);
            let mut registered: Vec<Environment> = Vec::new();
            let mut k: usize = 0;
            while k < environments.len()
                invariant
                    k <= environments@.len(),
                    ids == strings_view(registered_ids@),
                    registered@.len() == registered_of(environments@.take(k as int), ids).len(),
                    forall|j: int| 0 <= j < registered@.len() ==> same_environment(#[trigger] registered@[j], registered_of(environments@.take(k as int), ids)[j]),
                decreases environments.len() - k,
            {
                assert(environments@.take(k + 1).drop_last() =~= environments@.take(k as int));
                if is_listed(registered_ids, environments[k].id.as_str()) {
                    registered.push(environments[k].duplicate());
                }
                k = k + 1;
            }
            assert(environments@.take(environments@.len() as int) =~= environments@);
            RuntimeStatus {
                reachable: true,
                base_url: owned(base_url),
                health: Some(h),
                environments,
                registered,
            }
        },
        None => RuntimeStatus {
            reachable: false,
            base_url: owned(base_url),
            health: None,
            environments: Vec::new(),
            registered: Vec::new(),
        },
    }
}

/// The daemon address configured in the environment: the trimmed value,
/// when it is not empty.
pub fn configured_base_url(value: Option<String>) -> (r: Option<String>)
    ensures
        match value {
            Some(v) => if trim_seq(v@).len() > 0 {
                r is Some && r->Some_0@ == trim_seq(v@)
            } else {
                r is None
            },
            None => r is None,
        },
{
    match value {
        Some(v) => {
            let t = trim(v.as_str());
            if t.as_str().is_empty() {
                None
            } else {
                Some(t)
            }
        },
        None => None,
    }
}

/// `s` without its trailing `/` characters (`str::trim_end_matches('/')`).
pub open spec fn trim_end_slashes(s: Seq<char>) -> Seq<char>
    decreases s.len(),
{
    if s.len() > 0 && s.last() == '/' {
        trim_end_slashes(s.drop_last())
    } else {
        s
    }
}

/// `s` without its trailing `/` characters.
pub fn strip_trailing_slashes(s: &str) -> (r: String)
    ensures
        r@ == trim_end_slashes(s@),
{
    let v = chars_of(s);
    let mut j = v.len();
    assert(v@.take(v@.len() as int) =~= v@);
    while j > 0 && v[j - 1] == '/'
        invariant
            j <= v@.len(),
            trim_end_slashes(v@) == trim_end_slashes(v@.take(j as int)),
        decreases j,
    {
        assert(v@.take(j as int).drop_last() =~= v@.take(j - 1));
        j = j - 1;
    }
    let r = string_of_range(&v, 0, j);
    assert(v@.subrange(0, j as int) =~= v@.take(j as int));
    r
}

/// The URL of a daemon endpoint: the base address without trailing `/`,
/// then the path.
pub fn request_url(base_url: &str, path: &str) -> (r: String)
    ensures
        r@ == trim_end_slashes(base_url@) + path@,
{
    let mut r = strip_trailing_slashes(base_url);
    r.append(path);
    r
}

/// The path that acknowledges a mirrored task handoff.
pub fn handoff_ack_path(local_id: i64) -> (r: String)
    ensures
        r@ == "/tasks/handoff/"@ + remote_task_id_text(local_id as int) + "/ack"@,
{
    let id = remote_task_id(local_id);
    concat3("/tasks/handoff/", id.as_str(), "/ack")
}

/// The path that completes a mirrored task handoff.
pub fn handoff_complete_path(local_id: i64) -> (r: String)
    ensures
        r@ == "/tasks/handoff/"@ + remote_task_id_text(local_id as int) + "/complete"@,
{
    let id = remote_task_id(local_id);
    concat3("/tasks/handoff/", id.as_str(), "/complete")
}

/// The path that acknowledges a mirrored message.
pub fn message_ack_path(message_id: &str) -> (r: String)
    ensures
        r@ == "/messages/"@ + message_id@ + "/ack"@,
{
    concat3("/messages/", message_id, "/ack")
}

/// The path that lists the messages addressed to an environment.
pub fn poll_path(target_env: &str) -> (r: String)
    ensures
        r@ == "/messages?targetEnv="@ + target_env@,
{
    concat2("/messages?targetEnv=", target_env)
}

} // verus!
