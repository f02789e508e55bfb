//! The HTTP API over a workspace: what each route answers, with which
//! status, and what it changes.  The server itself lives outside the
//! library; each handler here takes the workspace and the request and gives
//! back the status and the body to send.
use vstd::prelude::*;
use crate::db::{
    has_agent, has_task, history_of, opt_view, unread_of, AgentRow, MessageRow, TaskHistoryRow,
    TaskRow, Workspace,
};
use crate::text::{concat2, decimal_int, format_i64, owned};

pub mod auth;

verus! {

broadcast use vstd::string::group_string_axioms;

// ---------------------------------------------------------------------------
// Requests
// ---------------------------------------------------------------------------
/// `POST /agents/join`.
#[derive(Debug)]
pub struct JoinAgentRequest {
    pub id: String,
    pub role: String,
    pub backend: String,
}

/// `POST /agents/leave`.
#[derive(Debug)]
pub struct LeaveAgentRequest {
    pub id: String,
}

/// `POST /messages/send`.
#[derive(Debug)]
pub struct SendMessageRequest {
    pub from: String,
    pub to: String,
    pub body: String,
}

/// `POST /messages/mark-read`.
#[derive(Debug)]
pub struct MarkReadRequest {
    pub id: i64,
}

/// `POST /tasks/create`.
#[derive(Debug)]
pub struct CreateTaskRequest {
    pub from: String,
    pub to: String,
    pub description: String,
}

/// `POST /tasks/ack`.
#[derive(Debug)]
pub struct AckTaskRequest {
    pub id: i64,
    pub worker: String,
}

/// `POST /tasks/complete`.
#[derive(Debug)]
pub struct CompleteTaskRequest {
    pub id: i64,
    pub worker: String,
    pub result: String,
}

/// `POST /tasks/requeue`.
#[derive(Debug)]
pub struct RequeueTaskRequest {
    pub id: i64,
}

/// `POST /ghostos/infer`.
#[derive(Debug)]
pub struct InferRequest {
    pub prompt: String,
}

// ---------------------------------------------------------------------------
// Responses
// ---------------------------------------------------------------------------
/// An agent as the API shows it.
#[derive(Debug)]
pub struct AgentResponse {
    pub id: String,
    pub role: String,
    pub backend: String,
    pub joined_at: Option<String>,
}

/// A message as the API shows it.
#[derive(Debug)]
pub struct MessageResponse {
    pub id: i64,
    pub sender: String,
    pub recipient: String,
    pub body: String,
    pub created_at: Option<String>,
    pub read: i64,
}

/// A task as the API shows it.
#[derive(Debug)]
pub struct TaskResponse {
    pub id: i64,
    pub creator: String,
    pub assignee: Option<String>,
    pub description: String,
    pub status: String,
    pub result: Option<String>,
    pub created_at: Option<String>,
    pub updated_at: Option<String>,
}

/// A task history event as the API shows it.
#[derive(Debug)]
pub struct TaskHistoryResponse {
    pub id: i64,
    pub task_id: i64,
    pub event: String,
    pub actor: String,
    pub at: Option<String>,
}

/// A task with its history.
#[derive(Debug)]
pub struct TaskDetailsResponse {
    pub task: TaskResponse,
    pub history: Vec<TaskHistoryResponse>,
}

/// The answer of `POST /ghostos/infer`.
#[derive(Debug)]
pub struct InferResponse {
    pub output: String,
}

/// A successful answer with its data.
#[derive(Debug)]
pub struct ApiMessage<T> {
    pub ok: bool,
    pub data: T,
}

/// The body of an answer.
#[derive(Debug)]
pub enum ApiBody {
    /// `{"ok": true, "data": [agents]}`
    Agents(ApiMessage<Vec<AgentResponse>>),
    /// `{"ok": true, "data": agent}`
    Agent(ApiMessage<AgentResponse>),
    /// `{"ok": true, "data": [messages]}`
    Messages(ApiMessage<Vec<MessageResponse>>),
    /// `{"ok": true, "data": [tasks]}`
    Tasks(ApiMessage<Vec<TaskResponse>>),
    /// `{"ok": true, "data": task with history}`
    Task(ApiMessage<TaskDetailsResponse>),
    /// `{"ok": true, "id": id}`
    Id(i64),
    /// `{"ok": true, "id": agent id}`
    AgentId(String),
    /// `{"ok": true, "from": from, "to": to}`
    Sent { from: String, to: String },
    /// `{"ok": true, "note": note}`
    Note(String),
    /// `{"output": output}`
    Inferred(InferResponse),
    /// `{"ok": false, "error": message}`
    Error(String),
    /// `{"error": message}`
    Failure(String),
}

/// An answer: its HTTP status and body.
#[derive(Debug)]
pub struct ApiReply {
    pub status: u16,
    pub body: ApiBody,
}

// ---------------------------------------------------------------------------
// Rows as responses
// ---------------------------------------------------------------------------
/// An agent row as the API shows it.
pub open spec fn agent_response_of(a: AgentRow) -> AgentResponse {
    AgentResponse { id: a.id, role: a.role, backend: a.backend, joined_at: a.joined_at }
}

/// A message row as the API shows it.
pub open spec fn message_response_of(m: MessageRow) -> MessageResponse {
    MessageResponse {
        id: m.id,
        sender: m.sender,
        recipient: m.recipient,
        body: m.body,
        created_at: m.created_at,
        read: m.read,
    }
}

/// A task row as the API shows it.
pub open spec fn task_response_of(t: TaskRow) -> TaskResponse {
    TaskResponse {
        id: t.id,
        creator: t.creator,
        assignee: t.assignee,
        description: t.description,
        status: t.status,
        result: t.result,
        created_at: t.created_at,
        updated_at: t.updated_at,
    }
}

/// A history row as the API shows it.
pub open spec fn history_response_of(h: TaskHistoryRow) -> TaskHistoryResponse {
    TaskHistoryResponse { id: h.id, task_id: h.task_id, event: h.event, actor: h.actor, at: h.at }
}

impl From<AgentRow> for AgentResponse {
    fn from(value: AgentRow) -> (r: Self) {
        AgentResponse {
            id: value.id,
            role: value.role,
            backend: value.backend,
            joined_at: value.joined_at,
        }
    }
}

impl vstd::std_specs::convert::FromSpecImpl<AgentRow> for AgentResponse {
    open spec fn obeys_from_spec() -> bool {
        true
    }

    open spec fn from_spec(v: AgentRow) -> Self {
        agent_response_of(v)
    }
}

fn message_response(m: &MessageRow) -> (r: MessageResponse)
    ensures
        r == message_response_of(*m),
{
    let c = m.duplicate();
    MessageResponse {
        id: c.id,
        sender: c.sender,
        recipient: c.recipient,
        body: c.body,
        created_at: c.created_at,
        read: c.read,
    }
}

fn task_response(t: &TaskRow) -> (r: TaskResponse)
    ensures
        r == task_response_of(*t),
{
    let c = t.duplicate();
    TaskResponse {
        id: c.id,
        creator: c.creator,
        assignee: c.assignee,
        description: c.description,
        status: c.status,
        result: c.result,
        created_at: c.created_at,
        updated_at: c.updated_at,
    }
}

fn history_response(h: &TaskHistoryRow) -> (r: TaskHistoryResponse)
    ensures
        r == history_response_of(*h),
{
    let c = h.duplicate();
    TaskHistoryResponse { id: c.id, task_id: c.task_id, event: c.event, actor: c.actor, at: c.at }
}

/// Each agent row as a response.
pub open spec fn agent_responses(s: Seq<AgentRow>) -> Seq<AgentResponse> {
    s.map_values(|a: AgentRow| agent_response_of(a))
}

/// Each message row as a response.
pub open spec fn message_responses(s: Seq<MessageRow>) -> Seq<MessageResponse> {
    s.map_values(|m: MessageRow| message_response_of(m))
}

/// Each task row as a response.
pub open spec fn task_responses(s: Seq<TaskRow>) -> Seq<TaskResponse> {
    s.map_values(|t: TaskRow| task_response_of(t))
}

/// Each history row as a response.
pub open spec fn history_responses(s: Seq<TaskHistoryRow>) -> Seq<TaskHistoryResponse> {
    s.map_values(|h: TaskHistoryRow| history_response_of(h))
}

fn agent_list(rows: &Vec<AgentRow>) -> (r: Vec<AgentResponse>)
    ensures
        r@ == agent_responses(rows@),
{
    let mut r: Vec<AgentResponse> = Vec::new();
    let mut i: usize = 0;
    while i < rows.len()
        invariant
            i <= rows@.len(),
            r@ == agent_responses(rows@.take(i as int)),
        decreases rows.len() - i,
    {
        let a = AgentResponse::from(rows[i].duplicate());
        r.push(a);
        assert(agent_responses(rows@.take(i + 1)) =~= agent_responses(rows@.take(i as int)).push(
            agent_response_of(rows@[i as int]),
        ));
        i = i + 1;
    }
    assert(rows@.take(rows@.len() as int) =~= rows@);
    r
}

fn message_list(rows: &Vec<MessageRow>) -> (r: Vec<MessageResponse>)
    ensures
        r@ == message_responses(rows@),
{
    let mut r: Vec<MessageResponse> = Vec::new();
    let mut i: usize = 0;
    while i < rows.len()
        invariant
            i <= rows@.len(),
            r@ == message_responses(rows@.take(i as int)),
        decreases rows.len() - i,
    {
        r.push(message_response(&rows[i]));
        assert(message_responses(rows@.take(i + 1)) =~= message_responses(rows@.take(i as int)).push(
            message_response_of(rows@[i as int]),
        ));
        i = i + 1;
    }
    assert(rows@.take(rows@.len() as int) =~= rows@);
    r
}

fn task_list(rows: &Vec<TaskRow>) -> (r: Vec<TaskResponse>)
    ensures
        r@ == task_responses(rows@),
{
    let mut r: Vec<TaskResponse> = Vec::new();
    let mut i: usize = 0;
    while i < rows.len()
        invariant
            i <= rows@.len(),
            r@ == task_responses(rows@.take(i as int)),
        decreases rows.len() - i,
    {
        r.push(task_response(&rows[i]));
        assert(task_responses(rows@.take(i + 1)) =~= task_responses(rows@.take(i as int)).push(
            task_response_of(rows@[i as int]),
        ));
        i = i + 1;
    }
    assert(rows@.take(rows@.len() as int) =~= rows@);
    r
}

fn history_list(rows: &Vec<TaskHistoryRow>) -> (r: Vec<TaskHistoryResponse>)
    ensures
        r@ == history_responses(rows@),
{
    let mut r: Vec<TaskHistoryResponse> = Vec::new();
    let mut i: usize = 0;
    while i < rows.len()
        invariant
            i <= rows@.len(),
            r@ == history_responses(rows@.take(i as int)),
        decreases rows.len() - i,
    {
        r.push(history_response(&rows[i]));
        assert(history_responses(rows@.take(i + 1)) =~= history_responses(rows@.take(i as int)).push(
            history_response_of(rows@[i as int]),
        ));
        i = i + 1;
    }
    assert(rows@.take(rows@.len() as int) =~= rows@);
    r
}


// ---------------------------------------------------------------------------
// Routes
// ---------------------------------------------------------------------------
/// The agent row at a position, as a response.
fn agent_at(ws: &Workspace, k: usize) -> (r: AgentResponse)
    requires
        k < ws.agents().len(),
    ensures
        r == agent_response_of(ws.agents()[k as int]),
{
    let rows = ws.agent_rows();
    AgentResponse::from(rows[k].duplicate())
}

/// `GET /agents`: every agent, in listing order.
pub fn list_agents(ws: &Workspace) -> (r: ApiReply)
    ensures
        r.status == 200,
        r.body matches ApiBody::Agents(m) && m.ok && m.data@ == agent_responses(ws.agents()),
{
    let rows = crate::agent::list_agents(ws);
    ApiReply { status: 200, body: ApiBody::Agents(ApiMessage { ok: true, data: agent_list(&rows) }) }
}

/// `POST /agents/join`: registers the agent under the first free id derived
/// from the requested one and answers with its record.
pub fn join_agent(ws: &mut Workspace, request: &JoinAgentRequest, now: &str) -> (r: ApiReply)
    requires
        old(ws).wf(),
        old(ws).agents().len() < usize::MAX,
    ensures
        final(ws).wf(),
        r.status == 201,
        r.body matches ApiBody::Agent(m) && m.ok && {
            &&& exists|k: nat|
                crate::db::first_free(old(ws).agents(), request.id@, k) && m.data.id@
                    == crate::db::candidate(request.id@, k)
            &&& m.data.role@ == request.role@
            &&& m.data.backend@ == request.backend@
            &&& opt_view(m.data.joined_at) == Some(now@)
            &&& exists|p: int|
                0 <= p <= old(ws).agents().len() && final(ws).agents() == old(ws).agents().insert(
                    p,
                    final(ws).agents()[p],
                ) && agent_response_of(final(ws).agents()[p]) == m.data
        },
        final(ws).messages() == old(ws).messages(),
        final(ws).tasks() == old(ws).tasks(),
        final(ws).task_history() == old(ws).task_history(),
        final(ws).mappings() == old(ws).mappings(),
        final(ws).mapping_history() == old(ws).mapping_history(),
{
    let id = crate::agent::join_agent(ws, request.id.as_str(), request.role.as_str(), request.backend.as_str(), now);
    match ws.find_agent(id.as_str()) {
        Some(k) => {
            let data = agent_at(ws, k);
            proof {
                let p = choose|p: int|
                    0 <= p <= old(ws).agents().len() && ws.agents() == old(ws).agents().insert(
                        p,
                        ws.agents()[p],
                    ) && ws.agents()[p].id@ == id@ && ws.agents()[p].role@ == request.role@
                        && ws.agents()[p].backend@ == request.backend@ && opt_view(
                        ws.agents()[p].joined_at,
                    ) == Some(now@);
                assert(ws.agents()[p].id@ == ws.agents()[k as int].id@);
                assert(p == k as int);
            }
            ApiReply { status: 201, body: ApiBody::Agent(ApiMessage { ok: true, data }) }
        },
        None => {
            proof {
                assert(false);
            }
            ApiReply { status: 201, body: ApiBody::AgentId(id) }
        },
    }
}

/// `POST /agents/leave`: removes the agent, if there is one.
pub fn leave_agent(ws: &mut Workspace, request: &LeaveAgentRequest) -> (r: ApiReply)
    requires
        old(ws).wf(),
    ensures
        final(ws).wf(),
        r.status == 200,
        r.body matches ApiBody::AgentId(id) && id@ == request.id@,
        !has_agent(final(ws).agents(), request.id@),
        has_agent(old(ws).agents(), request.id@) ==> exists|k: int|
            0 <= k < old(ws).agents().len() && old(ws).agents()[k].id@ == request.id@
                && final(ws).agents() == old(ws).agents().remove(k),
        !has_agent(old(ws).agents(), request.id@) ==> final(ws).agents() == old(ws).agents(),
        final(ws).messages() == old(ws).messages(),
        final(ws).tasks() == old(ws).tasks(),
        final(ws).task_history() == old(ws).task_history(),
        final(ws).mappings() == old(ws).mappings(),
        final(ws).mapping_history() == old(ws).mapping_history(),
{
    crate::agent::leave_agent(ws, request.id.as_str());
    ApiReply { status: 200, body: ApiBody::AgentId(owned(request.id.as_str())) }
}

/// `GET /agents/:id`: the agent, or 404.
pub fn get_agent(ws: &Workspace, id: &str) -> (r: ApiReply)
    ensures
        has_agent(ws.agents(), id@) ==> r.status == 200 && (r.body matches ApiBody::Agent(m) && m.ok
            && m.data.id@ == id@ && exists|k: int|
            0 <= k < ws.agents().len() && agent_response_of(ws.agents()[k]) == m.data),
        !has_agent(ws.agents(), id@) ==> r.status == 404 && (r.body matches ApiBody::Error(e) && e@
            == "agent not found: "@ + id@),
{
    match ws.find_agent(id) {
        Some(k) => {
            let data = agent_at(ws, k);
            ApiReply { status: 200, body: ApiBody::Agent(ApiMessage { ok: true, data }) }
        },
        None => ApiReply { status: 404, body: ApiBody::Error(concat2("agent not found: ", id)) },
    }
}

/// `GET /messages`: a note on where messages are listed.
pub fn list_messages() -> (r: ApiReply)
    ensures
        r.status == 200,
        r.body matches ApiBody::Note(n) && n@ == "use /messages/{agent} to fetch unread messages"@,
{
    ApiReply { status: 200, body: ApiBody::Note(owned("use /messages/{agent} to fetch unread messages")) }
}

/// `GET /messages/:agent`: the agent's unread messages by id, left unread.
pub fn list_unread_messages(ws: &Workspace, agent: &str) -> (r: ApiReply)
    ensures
        r.status == 200,
        r.body matches ApiBody::Messages(m) && m.ok && m.data@ == message_responses(
            unread_of(ws.messages(), agent@),
        ),
{
    let rows = ws.unread_messages(agent);
    ApiReply { status: 200, body: ApiBody::Messages(ApiMessage { ok: true, data: message_list(&rows) }) }
}

/// `POST /messages/send`: stores the message.
pub fn send_message(ws: &mut Workspace, request: &SendMessageRequest, now: &str) -> (r: ApiReply)
    requires
        old(ws).wf(),
        old(ws).message_room(),
    ensures
        final(ws).wf(),
        r.status == 201,
        r.body matches ApiBody::Sent { from, to } && from@ == request.from@ && to@ == request.to@,
        final(ws).messages() == old(ws).messages().push(final(ws).messages().last()),
        crate::db::is_new_message(
            final(ws).messages().last(),
            crate::db::next_message_id(old(ws).messages()) as int,
            request.from@,
            request.to@,
            request.body@,
            now@,
        ),
        final(ws).agents() == old(ws).agents(),
        final(ws).tasks() == old(ws).tasks(),
        final(ws).task_history() == old(ws).task_history(),
        final(ws).mappings() == old(ws).mappings(),
        final(ws).mapping_history() == old(ws).mapping_history(),
{
    let _ = crate::tasks::send_message(ws, request.from.as_str(), request.to.as_str(), request.body.as_str(), now);
    ApiReply {
        status: 201,
        body: ApiBody::Sent { from: owned(request.from.as_str()), to: owned(request.to.as_str()) },
    }
}

/// `POST /messages/mark-read`: marks the message read, or 404.
pub fn mark_read(ws: &mut Workspace, request: &MarkReadRequest) -> (r: ApiReply)
    requires
        old(ws).wf(),
    ensures
        final(ws).wf(),
        (exists|k: int| 0 <= k < old(ws).messages().len() && (#[trigger] old(ws).messages()[k]).id == request.id) ==> {
            &&& r.status == 200
            &&& r.body matches ApiBody::Id(id) && id == request.id
            &&& exists|k: int|
                0 <= k < old(ws).messages().len() && old(ws).messages()[k].id == request.id
                    && final(ws).messages() == old(ws).messages().update(
                    k,
                    crate::db::read_row(old(ws).messages()[k]),
                )
        },
        !(exists|k: int| 0 <= k < old(ws).messages().len() && (#[trigger] old(ws).messages()[k]).id == request.id) ==> {
            &&& r.status == 404
            &&& r.body matches ApiBody::Error(e) && e@ == "message not found: "@ + decimal_int(request.id as int)
            &&& final(ws).messages() == old(ws).messages()
        },
        final(ws).agents() == old(ws).agents(),
        final(ws).tasks() == old(ws).tasks(),
        final(ws).task_history() == old(ws).task_history(),
        final(ws).mappings() == old(ws).mappings(),
        final(ws).mapping_history() == old(ws).mapping_history(),
{
    if ws.mark_message_read(request.id) {
        ApiReply { status: 200, body: ApiBody::Id(request.id) }
    } else {
        let n = format_i64(request.id);
        ApiReply { status: 404, body: ApiBody::Error(concat2("message not found: ", n.as_str())) }
    }
}

/// `GET /tasks`: every task, newest first.
pub fn list_tasks(ws: &Workspace) -> (r: ApiReply)
    ensures
        r.status == 200,
        r.body matches ApiBody::Tasks(m) && m.ok && m.data@ == task_responses(ws.tasks().reverse()),
{
    let rows = ws.tasks_newest_first();
    ApiReply { status: 200, body: ApiBody::Tasks(ApiMessage { ok: true, data: task_list(&rows) }) }
}

/// The task with the given id and its history, if there is one.
fn details(ws: &Workspace, id: i64) -> (r: Option<TaskDetailsResponse>)
    ensures
        r is Some <==> has_task(ws.tasks(), id as int),
        r matches Some(d) ==> {
            &&& d.task.id == id
            &&& exists|k: int| 0 <= k < ws.tasks().len() && task_response_of(ws.tasks()[k]) == d.task
            &&& d.history@ == history_responses(history_of(ws.task_history(), id as int))
        },
{
    match crate::tasks::task_detail(ws, id) {
        Some((t, h)) => {
            let task = task_response(&t);
            Some(TaskDetailsResponse { task, history: history_list(&h) })
        },
        None => None,
    }
}

/// `POST /tasks/create`: creates the task and answers with it and its
/// history.
pub fn create_task(ws: &mut Workspace, request: &CreateTaskRequest, now: &str) -> (r: ApiReply)
    requires
        old(ws).wf(),
        old(ws).task_room(),
        old(ws).history_room(),
    ensures
        final(ws).wf(),
        r.status == 201,
        r.body matches ApiBody::Task(m) && m.ok && {
            &&& m.data.task == task_response_of(final(ws).tasks().last())
            &&& m.data.history@ == history_responses(
                history_of(final(ws).task_history(), m.data.task.id as int),
            )
        },
        final(ws).tasks() == old(ws).tasks().push(final(ws).tasks().last()),
        crate::db::is_new_task(
            final(ws).tasks().last(),
            crate::db::next_task_id(old(ws).tasks()) as int,
            request.from@,
            request.to@,
            request.description@,
            now@,
        ),
        crate::tasks::history_appended(
            old(ws).task_history(),
            final(ws).task_history(),
            crate::db::next_task_id(old(ws).tasks()) as int,
            "created"@,
            request.from@,
            now@,
        ),
        final(ws).agents() == old(ws).agents(),
        final(ws).messages() == old(ws).messages(),
        final(ws).mappings() == old(ws).mappings(),
        final(ws).mapping_history() == old(ws).mapping_history(),
{
    let id = crate::tasks::create_task(
        ws,
        request.from.as_str(),
        request.to.as_str(),
        request.description.as_str(),
        now,
    );
    let rows = ws.task_rows();
    let last = rows.len() - 1;
    let task = task_response(&rows[last]);
    let history = history_list(&ws.history_for(id));
    assert(ws.tasks().last().id == id);
    ApiReply { status: 201, body: ApiBody::Task(ApiMessage { ok: true, data: TaskDetailsResponse { task, history } }) }
}

/// `POST /tasks/ack`: acknowledges the task for the worker.
pub fn ack_task(ws: &mut Workspace, request: &AckTaskRequest, now: &str) -> (r: ApiReply)
    requires
        old(ws).wf(),
        old(ws).history_room(),
    ensures
        final(ws).wf(),
        r.status == 200,
        r.body matches ApiBody::Id(id) && id == request.id,
        crate::tasks::tasks_after_update(
            old(ws).tasks(),
            final(ws).tasks(),
            request.id as int,
            "acked"@,
            Some(request.worker@),
            None,
            now@,
        ),
        crate::tasks::history_appended(
            old(ws).task_history(),
            final(ws).task_history(),
            request.id as int,
            "acked"@,
            request.worker@,
            now@,
        ),
        final(ws).agents() == old(ws).agents(),
        final(ws).messages() == old(ws).messages(),
        final(ws).mappings() == old(ws).mappings(),
        final(ws).mapping_history() == old(ws).mapping_history(),
{
    let _ = crate::tasks::ack_task(ws, request.id, request.worker.as_str(), now);
    ApiReply { status: 200, body: ApiBody::Id(request.id) }
}

/// `POST /tasks/complete`: completes the task with the worker's result.
pub fn complete_task(ws: &mut Workspace, request: &CompleteTaskRequest, now: &str) -> (r: ApiReply)
    requires
        old(ws).wf(),
        old(ws).history_room(),
    ensures
        final(ws).wf(),
        r.status == 200,
        r.body matches ApiBody::Id(id) && id == request.id,
        crate::tasks::tasks_after_update(
            old(ws).tasks(),
            final(ws).tasks(),
            request.id as int,
            "completed"@,
            Some(request.worker@),
            Some(request.result@),
            now@,
        ),
        crate::tasks::history_appended(
            old(ws).task_history(),
            final(ws).task_history(),
            request.id as int,
            "completed"@,
            request.worker@,
            now@,
        ),
        final(ws).agents() == old(ws).agents(),
        final(ws).messages() == old(ws).messages(),
        final(ws).mappings() == old(ws).mappings(),
        final(ws).mapping_history() == old(ws).mapping_history(),
{
    let _ = crate::tasks::complete_task(
        ws,
        request.id,
        request.worker.as_str(),
        request.result.as_str(),
        now,
    );
    ApiReply { status: 200, body: ApiBody::Id(request.id) }
}

/// `POST /tasks/requeue`: puts the task back in the queue.
pub fn requeue_task(ws: &mut Workspace, request: &RequeueTaskRequest, now: &str) -> (r: ApiReply)
    requires
        old(ws).wf(),
        old(ws).history_room(),
    ensures
        final(ws).wf(),
        r.status == 200,
        r.body matches ApiBody::Id(id) && id == request.id,
        crate::tasks::tasks_after_update(
            old(ws).tasks(),
            final(ws).tasks(),
            request.id as int,
            "requeued"@,
            None,
            None,
            now@,
        ),
        crate::tasks::history_appended(
            old(ws).task_history(),
            final(ws).task_history(),
            request.id as int,
            "requeued"@,
            "system"@,
            now@,
        ),
        final(ws).agents() == old(ws).agents(),
        final(ws).messages() == old(ws).messages(),
        final(ws).mappings() == old(ws).mappings(),
        final(ws).mapping_history() == old(ws).mapping_history(),
{
    let _ = crate::tasks::requeue_task(ws, request.id, now);
    ApiReply { status: 200, body: ApiBody::Id(request.id) }
}

/// `GET /tasks/:id`: the task with its history, or 404.
pub fn get_task(ws: &Workspace, id: i64) -> (r: ApiReply)
    ensures
        has_task(ws.tasks(), id as int) ==> r.status == 200 && (r.body matches ApiBody::Task(m)
            && m.ok && m.data.task.id == id && (exists|k: int|
            0 <= k < ws.tasks().len() && task_response_of(ws.tasks()[k]) == m.data.task)
            && m.data.history@ == history_responses(history_of(ws.task_history(), id as int))),
        !has_task(ws.tasks(), id as int) ==> r.status == 404 && (r.body matches ApiBody::Error(e)
            && e@ == "task not found: "@ + decimal_int(id as int)),
{
    match details(ws, id) {
        Some(d) => ApiReply { status: 200, body: ApiBody::Task(ApiMessage { ok: true, data: d }) },
        None => {
            let n = format_i64(id);
            ApiReply { status: 404, body: ApiBody::Error(concat2("task not found: ", n.as_str())) }
        },
    }
}

/// `POST /ghostos/infer`: the model's output, or 502 with why there is none.
pub fn infer(outcome: Result<String, String>) -> (r: ApiReply)
    ensures
        outcome is Ok ==> r.status == 200 && (r.body matches ApiBody::Inferred(o) && o.output
            == outcome->Ok_0),
        outcome is Err ==> r.status == 502 && (r.body matches ApiBody::Failure(e) && e
            == outcome->Err_0),
{
    match outcome {
        Ok(output) => ApiReply { status: 200, body: ApiBody::Inferred(InferResponse { output }) },
        Err(error) => ApiReply { status: 502, body: ApiBody::Failure(error) },
    }
}

/// The answer of a route whose work failed in the store: 500 with the error.
pub fn store_error(error: &str) -> (r: ApiReply)
    ensures
        r.status == 500,
        r.body matches ApiBody::Error(e) && e@ == error@,
{
    ApiReply { status: 500, body: ApiBody::Error(owned(error)) }
}

} // verus!
