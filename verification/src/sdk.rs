//! The client side of the GhostTeam API: the records it exchanges, where
//! each call goes, and how an answer's status decides what the caller gets.
//! Sending requests is left to the caller's HTTP client.
use vstd::prelude::*;
use crate::db::opt_view;
use crate::konnect::{strip_trailing_slashes, trim_end_slashes};
use crate::telegram::reply::{http_status_text, HttpStatus};
use crate::text::{chars_of, concat2, concat3, decimal_int, format_i64, owned, string_of_range};

verus! {

broadcast use vstd::string::group_string_axioms;

// ---------------------------------------------------------------------------
// Records
// ---------------------------------------------------------------------------
/// A successful answer with its data.
#[derive(Debug)]
pub struct ApiResponse<T> {
    pub ok: bool,
    pub data: T,
}

/// A successful answer that only names what it created.
#[derive(Debug)]
pub struct ApiIdResponse<T> {
    pub ok: bool,
    pub id: T,
    pub note: Option<String>,
    pub warning: Option<String>,
}

/// An agent.
#[derive(Debug)]
pub struct Agent {
    pub id: String,
    pub role: String,
    pub backend: String,
    pub joined_at: Option<String>,
}

/// What `POST /agents/join` takes.
#[derive(Debug)]
pub struct JoinAgentRequest {
    pub id: String,
    pub role: String,
    pub backend: String,
}

/// What `POST /agents/leave` takes.
#[derive(Debug)]
pub struct LeaveAgentRequest {
    pub id: String,
}

/// What `POST /agents/leave` answers.
#[derive(Debug)]
pub struct LeaveAgentResponse {
    pub ok: bool,
    pub id: String,
}

/// What `POST /agents/join` answers: the agent's record, or only its id.
#[derive(Debug)]
pub enum JoinAgentResponse {
    Detailed(ApiResponse<Agent>),
    Acknowledged(ApiIdResponse<String>),
}

/// What `POST /ghostos/infer` takes.
#[derive(Debug)]
pub struct GhostOsInferRequest {
    pub prompt: String,
}

/// What `POST /ghostos/infer` answers.
#[derive(Debug)]
pub struct GhostOsInferResponse {
    pub output: String,
}

/// A message.
#[derive(Debug)]
pub struct Message {
    pub id: i64,
    pub sender: String,
    pub recipient: String,
    pub body: String,
    pub created_at: Option<String>,
    pub read: i64,
}

/// What `POST /messages/send` takes.
#[derive(Debug)]
pub struct SendMessageRequest {
    pub from: String,
    pub to: String,
    pub body: String,
}

/// What `POST /messages/mark-read` takes.
#[derive(Debug)]
pub struct MarkReadRequest {
    pub id: i64,
}

/// What `POST /messages/send` answers.
#[derive(Debug)]
pub struct MessageSendResponse {
    pub ok: bool,
    pub from: String,
    pub to: String,
}

/// What `POST /messages/mark-read` answers.
#[derive(Debug)]
pub struct MessageReadResponse {
    pub ok: bool,
    pub id: i64,
}

/// A task.
#[derive(Debug)]
pub struct Task {
    pub id: i64,
    pub creator: String,
    pub assignee: Option<String>,
    pub description: String,
    pub status: String,
    pub result: Option<String>,
    pub created_at: Option<String>,
    pub updated_at: Option<String>,
}

/// One event in a task's history.
#[derive(Debug)]
pub struct TaskHistory {
    pub id: i64,
    pub task_id: i64,
    pub event: String,
    pub actor: String,
    pub at: Option<String>,
}

/// A task with its history.
#[derive(Debug)]
pub struct TaskDetails {
    pub task: Task,
    pub history: Vec<TaskHistory>,
}

/// What `POST /tasks/create` takes.
#[derive(Debug)]
pub struct CreateTaskRequest {
    pub from: String,
    pub to: String,
    pub description: String,
}

/// What `POST /tasks/ack` takes.
#[derive(Debug)]
pub struct AckTaskRequest {
    pub id: i64,
    pub worker: String,
}

/// What `POST /tasks/complete` takes.
#[derive(Debug)]
pub struct CompleteTaskRequest {
    pub id: i64,
    pub worker: String,
    pub result: String,
}

/// What `POST /tasks/requeue` takes.
#[derive(Debug)]
pub struct RequeueTaskRequest {
    pub id: i64,
}

/// What the task transitions answer.
#[derive(Debug)]
pub struct TaskStatusResponse {
    pub ok: bool,
    pub id: i64,
}

/// What `POST /tasks/create` answers: the task's details, or only its id.
#[derive(Debug)]
pub enum TaskCreateResponse {
    Detailed(ApiResponse<TaskDetails>),
    Acknowledged(ApiIdResponse<i64>),
}

// ---------------------------------------------------------------------------
// Errors
// ---------------------------------------------------------------------------
/// Why a call gave no answer.
#[derive(Debug)]
pub enum GhostTeamError {
    /// The request could not be made.
    Http(String),
    /// The API answered with an unsuccessful status.
    Api { status: HttpStatus, body: String },
    /// The answer could not be read.
    Serde(String),
}

/// How an error reads.
pub open spec fn client_error_text(e: &GhostTeamError) -> Seq<char> {
    match e {
        GhostTeamError::Http(m) => "http error: "@ + m@,
        GhostTeamError::Api { status, body } => "api error "@ + http_status_text(status.spec_code())
            + ": "@ + body@,
        GhostTeamError::Serde(m) => "serialization error: "@ + m@,
    }
}

impl GhostTeamError {
    /// How the error reads.
    pub fn message(&self) -> (r: String)
        ensures
            r@ == client_error_text(self),
    {
        match self {
            GhostTeamError::Http(m) => concat2("http error: ", m.as_str()),
            GhostTeamError::Api { status, body } => {
                let t = status.text();
                let head = concat3("api error ", t.as_str(), ": ");
                concat2(head.as_str(), body.as_str())
            },
            GhostTeamError::Serde(m) => concat2("serialization error: ", m.as_str()),
        }
    }
}

// ---------------------------------------------------------------------------
// Addresses
// ---------------------------------------------------------------------------
/// `s` without its leading `/` characters.
pub open spec fn trim_start_slashes(s: Seq<char>) -> Seq<char>
    decreases s.len(),
{
    if s.len() > 0 && s[0] == '/' {
        trim_start_slashes(s.drop_first())
    } else {
        s
    }
}

fn strip_leading_slashes(s: &str) -> (r: String)
    ensures
        r@ == trim_start_slashes(s@),
{
    let v = chars_of(s);
    let mut i: usize = 0;
    assert(v@.skip(0) =~= v@);
    while i < v.len() && v[i] == '/'
        invariant
            i <= v@.len(),
            trim_start_slashes(v@) == trim_start_slashes(v@.skip(i as int)),
        decreases v.len() - i,
    {
        assert(v@.skip(i as int).drop_first() =~= v@.skip(i + 1));
        i = i + 1;
    }
    assert(v@.skip(i as int) =~= v@.subrange(i as int, v@.len() as int));
    string_of_range(&v, i, v.len())
}

/// A base address without its trailing slashes.
pub fn normalize_base_url(base_url: String) -> (r: String)
    ensures
        r@ == trim_end_slashes(base_url@),
{
    strip_trailing_slashes(base_url.as_str())
}

/// What a client needs to reach the API; requests go through the caller's
/// HTTP client.
#[derive(Debug)]
pub struct GhostTeamClient {
    base_url: String,
    api_key: Option<String>,
}

impl GhostTeamClient {
    /// The base address the client was made with.
    pub closed spec fn spec_base_url(&self) -> Seq<char> {
        self.base_url@
    }

    /// The key sent along with each request.
    pub closed spec fn spec_api_key(&self) -> Option<Seq<char>> {
        opt_view(self.api_key)
    }

    /// A client for the API at `base_url` (trailing slashes dropped), with
    /// no key.
    pub fn new(base_url: String) -> (r: Result<GhostTeamClient, GhostTeamError>)
        ensures
            r matches Ok(c) && c.spec_base_url() == trim_end_slashes(base_url@)
                && c.spec_api_key() is None,
    {
        Ok(GhostTeamClient { base_url: normalize_base_url(base_url), api_key: None })
    }

    /// The client, sending `api_key` from now on.
    pub fn with_api_key(self, api_key: String) -> (r: GhostTeamClient)
        ensures
            r.spec_base_url() == self.spec_base_url(),
            r.spec_api_key() == Some(api_key@),
    {
        GhostTeamClient { base_url: self.base_url, api_key: Some(api_key) }
    }

    /// Sends `api_key` from now on.
    pub fn set_api_key(&mut self, api_key: String)
        ensures
            final(self).spec_base_url() == old(self).spec_base_url(),
            final(self).spec_api_key() == Some(api_key@),
    {
        self.api_key = Some(api_key);
    }

    /// Sends no key from now on.
    pub fn clear_api_key(&mut self)
        ensures
            final(self).spec_base_url() == old(self).spec_base_url(),
            final(self).spec_api_key() is None,
    {
        self.api_key = None;
    }

    /// The base address.
    pub fn base_url(&self) -> (r: &str)
        ensures
            r@ == self.spec_base_url(),
    {
        self.base_url.as_str()
    }

    /// The key sent along with each request, if any.
    pub fn api_key(&self) -> (r: Option<String>)
        ensures
            opt_view(r) == self.spec_api_key(),
    {
        match &self.api_key {
            Some(k) => Some(owned(k.as_str())),
            None => None,
        }
    }

    /// The address of an API path: the base and the path, one `/` between.
    pub fn endpoint(&self, path: &str) -> (r: String)
        ensures
            r@ == trim_end_slashes(self.spec_base_url()) + "/"@ + trim_start_slashes(path@),
    {
        let base = strip_trailing_slashes(self.base_url.as_str());
        let p = strip_leading_slashes(path);
        concat3(base.as_str(), "/", p.as_str())
    }
}

/// The path of one agent.
pub fn agent_path(id: &str) -> (r: String)
    ensures
        r@ == "/agents/"@ + id@,
{
    concat2("/agents/", id)
}

/// The path of one task.
pub fn task_path(id: i64) -> (r: String)
    ensures
        r@ == "/tasks/"@ + decimal_int(id as int),
{
    let n = format_i64(id);
    concat2("/tasks/", n.as_str())
}

/// The path of an agent's unread messages.
pub fn messages_path(agent: &str) -> (r: String)
    ensures
        r@ == "/messages/"@ + agent@,
{
    concat2("/messages/", agent)
}

// ---------------------------------------------------------------------------
// Answers
// ---------------------------------------------------------------------------
/// The body of an answer to decode, or the error its status stands for.
pub fn check_status(status: &HttpStatus, body: String) -> (r: Result<String, GhostTeamError>)
    ensures
        200 <= status.spec_code() <= 299 ==> r == Ok::<String, GhostTeamError>(body),
        !(200 <= status.spec_code() <= 299) ==> (r matches Err(GhostTeamError::Api { status: s, body: b })
            && s.spec_code() == status.spec_code() && b == body),
{
    if status.is_success() {
        Ok(body)
    } else {
        Err(GhostTeamError::Api { status: status.duplicate(), body })
    }
}

/// For a lookup of one record: nothing on 404, the body to decode on
/// success, else the error the status stands for.
pub fn check_lookup_status(status: &HttpStatus, body: String) -> (r: Result<Option<String>, GhostTeamError>)
    ensures
        status.spec_code() == 404 ==> r == Ok::<Option<String>, GhostTeamError>(None),
        200 <= status.spec_code() <= 299 ==> r == Ok::<Option<String>, GhostTeamError>(Some(body)),
        status.spec_code() != 404 && !(200 <= status.spec_code() <= 299) ==> (r matches Err(
            GhostTeamError::Api { status: s, body: b },
        ) && s.spec_code() == status.spec_code() && b == body),
{
    if status.code() == 404 {
        Ok(None)
    } else {
        match check_status(status, body) {
            Ok(b) => Ok(Some(b)),
            Err(e) => Err(e),
        }
    }
}

} // verus!
