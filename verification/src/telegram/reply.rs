//! What the bridge makes of the answers it gets: HTTP statuses, the errors of
//! the GhostTeam API and of Telegram, and the replies sent back to a chat.
use vstd::prelude::*;
use crate::konnect::strings_view;
use crate::telegram::{BridgeCommand, BridgeCommandView};
use crate::text::{
    concat2, concat3, decimal, decimal_int, format_i64, format_usize, owned, str_eq, trim, trim_seq,
};

verus! {

broadcast use vstd::string::group_string_axioms;

// ---------------------------------------------------------------------------
// HTTP statuses
// ---------------------------------------------------------------------------
/// The text `reqwest` prints for an HTTP status code: the code, a space and
/// its canonical reason.
pub uninterp spec fn http_status_text(code: u16) -> Seq<char>;

/// `reqwest::StatusCode::from_u16` followed by its `Display`: no status
/// outside 100..=999; inside, the status's text, which starts with the
/// code's decimal digits and a space (the reason phrase is left unsaid).
#[verifier::external_body]
fn status_text(code: u16) -> (r: Option<String>)
    ensures
        (100 <= code && code <= 999) <==> r is Some,
        r matches Some(t) ==> t@ == http_status_text(code),
        r matches Some(t) ==> t@.take(4) == decimal(code as nat).push(' '),
{
    match reqwest::StatusCode::from_u16(code) {
        Ok(status) => Some(status.to_string()),
        Err(_) => None,
    }
}

/// An HTTP status code, 100 to 999, with its text.
#[derive(Debug)]
pub struct HttpStatus {
    code: u16,
    text: String,
}

impl HttpStatus {
    #[verifier::type_invariant]
    spec fn well_formed(self) -> bool {
        &&& 100 <= self.code <= 999
        &&& self.text@ == http_status_text(self.code)
    }

    /// The numeric code.
    pub closed spec fn spec_code(&self) -> u16 {
        self.code
    }

    /// The status with the given code, if it is one (100 to 999).
    pub fn from_u16(code: u16) -> (r: Option<HttpStatus>)
        ensures
            (100 <= code && code <= 999) <==> r is Some,
            r matches Some(s) ==> s.spec_code() == code,
    {
        match status_text(code) {
            Some(text) => Some(HttpStatus { code, text }),
            None => None,
        }
    }

    /// The numeric code.
    pub fn code(&self) -> (c: u16)
        ensures
            c == self.spec_code(),
            100 <= c <= 999,
    {
        proof {
            use_type_invariant(self);
        }
        self.code
    }

    /// The text of the status (`404 Not Found`).
    pub fn text(&self) -> (t: String)
        ensures
            t@ == http_status_text(self.spec_code()),
    {
        proof {
            use_type_invariant(self);
        }
        owned(self.text.as_str())
    }

    /// A copy of the status.
    pub fn duplicate(&self) -> (r: HttpStatus)
        ensures
            r.spec_code() == self.spec_code(),
    {
        proof {
            use_type_invariant(self);
        }
        HttpStatus { code: self.code, text: owned(self.text.as_str()) }
    }

    /// Whether the status is a success (2xx).
    pub fn is_success(&self) -> (b: bool)
        ensures
            b == (200 <= self.spec_code() <= 299),
    {
        200 <= self.code && self.code <= 299
    }
}

// ---------------------------------------------------------------------------
// Errors
// ---------------------------------------------------------------------------
/// Why a call to the GhostTeam API gave no data.
#[derive(Debug)]
pub enum ApiError {
    /// The API could not be reached.
    Transport(String),
    /// The API refused the configured key (401 or 403).
    Unauthorized,
    /// Any other unsuccessful status, with the trimmed body.
    Http { status: HttpStatus, body: String },
    /// The answer could not be read, or said the call failed.
    Malformed(String),
}

/// Why a call to the Telegram Bot API gave no result.
#[derive(Debug)]
pub enum TelegramError {
    /// Telegram could not be reached.
    Transport(String),
    /// An unsuccessful status, with the trimmed body.
    Http { status: HttpStatus, body: String },
    /// The answer could not be read.
    Malformed(String),
    /// Telegram answered that the call failed.
    Api(String),
}

/// How an API error reads.
pub open spec fn api_error_text(e: &ApiError) -> Seq<char> {
    match e {
        ApiError::Transport(m) => "GhostTeam API is unreachable: "@ + m@,
        ApiError::Unauthorized => "GhostTeam API rejected the configured key"@,
        ApiError::Http { status, body } => "GhostTeam API returned HTTP "@ + http_status_text(
            status.spec_code(),
        ) + ": "@ + body@,
        ApiError::Malformed(m) => "GhostTeam API returned malformed JSON: "@ + m@,
    }
}

/// How a Telegram error reads.
pub open spec fn telegram_error_text(e: &TelegramError) -> Seq<char> {
    match e {
        TelegramError::Transport(m) => "Telegram request failed: "@ + m@,
        TelegramError::Http { status, body } => "Telegram returned HTTP "@ + http_status_text(
            status.spec_code(),
        ) + ": "@ + body@,
        TelegramError::Malformed(m) => "Telegram response was malformed: "@ + m@,
        TelegramError::Api(m) => "Telegram API error: "@ + m@,
    }
}

impl ApiError {
    /// How the error reads.
    pub fn message(&self) -> (r: String)
        ensures
            r@ == api_error_text(self),
    {
        match self {
            ApiError::Transport(m) => concat2("GhostTeam API is unreachable: ", m.as_str()),
            ApiError::Unauthorized => owned("GhostTeam API rejected the configured key"),
            ApiError::Http { status, body } => {
                let t = status.text();
                let head = concat2("GhostTeam API returned HTTP ", t.as_str());
                concat3(head.as_str(), ": ", body.as_str())
            },
            ApiError::Malformed(m) => concat2("GhostTeam API returned malformed JSON: ", m.as_str()),
        }
    }
}

impl TelegramError {
    /// How the error reads.
    pub fn message(&self) -> (r: String)
        ensures
            r@ == telegram_error_text(self),
    {
        match self {
            TelegramError::Transport(m) => concat2("Telegram request failed: ", m.as_str()),
            TelegramError::Http { status, body } => {
                let t = status.text();
                let head = concat2("Telegram returned HTTP ", t.as_str());
                concat3(head.as_str(), ": ", body.as_str())
            },
            TelegramError::Malformed(m) => concat2("Telegram response was malformed: ", m.as_str()),
            TelegramError::Api(m) => concat2("Telegram API error: ", m.as_str()),
        }
    }
}

/// The error an API answer with this status stands for, if any: 401 and
/// 403 are a refused key, any other status outside 2xx carries the trimmed
/// body.
pub fn api_status_error(status: &HttpStatus, body: &str) -> (r: Option<ApiError>)
    ensures
        (status.spec_code() == 401 || status.spec_code() == 403) ==> (r matches Some(
            ApiError::Unauthorized,
        )),
        (status.spec_code() != 401 && status.spec_code() != 403 && !(200 <= status.spec_code()
            <= 299)) ==> (r matches Some(ApiError::Http { status: s, body: b }) && s.spec_code()
            == status.spec_code() && b@ == trim_seq(body@)),
        200 <= status.spec_code() <= 299 ==> r is None,
{
    let code = status.code();
    if code == 401 || code == 403 {
        Some(ApiError::Unauthorized)
    } else if !status.is_success() {
        Some(ApiError::Http { status: status.duplicate(), body: trim(body) })
    } else {
        None
    }
}

/// The error a Telegram answer with this status stands for, if any: any
/// status outside 2xx, with the trimmed body.
pub fn telegram_status_error(status: &HttpStatus, body: &str) -> (r: Option<TelegramError>)
    ensures
        !(200 <= status.spec_code() <= 299) ==> (r matches Some(
            TelegramError::Http { status: s, body: b },
        ) && s.spec_code() == status.spec_code() && b@ == trim_seq(body@)),
        200 <= status.spec_code() <= 299 ==> r is None,
{
    if !status.is_success() {
        Some(TelegramError::Http { status: status.duplicate(), body: trim(body) })
    } else {
        None
    }
}

// ---------------------------------------------------------------------------
// Envelopes
// ---------------------------------------------------------------------------
/// The envelope the GhostTeam API wraps its answers in.
#[derive(Debug)]
pub struct ApiEnvelope<T> {
    pub ok: bool,
    pub data: Option<T>,
    pub error: Option<String>,
}

impl<T> ApiEnvelope<T> {
    /// The data of a successful answer; `label` names what was asked for.
    pub fn into_data(self, label: &str) -> (r: Result<T, ApiError>)
        ensures
            self.ok && self.data is Some ==> (r matches Ok(d) && d == self.data->0),
            self.ok && self.data is None ==> (r matches Err(ApiError::Malformed(m)) && m@
                == label@ + " response was missing a data field"@),
            !self.ok ==> (r matches Err(ApiError::Malformed(m)) && m@ == match self.error {
                Some(e) => e@,
                None => label@ + " request failed"@,
            }),
    {
        if self.ok {
            match self.data {
                Some(d) => Ok(d),
                None => Err(ApiError::Malformed(concat2(label, " response was missing a data field"))),
            }
        } else {
            match self.error {
                Some(e) => Err(ApiError::Malformed(e)),
                None => Err(ApiError::Malformed(concat2(label, " request failed"))),
            }
        }
    }
}

/// The envelope Telegram wraps its answers in.
#[derive(Debug)]
pub struct TelegramResponse<T> {
    pub ok: bool,
    pub result: Option<T>,
    pub description: Option<String>,
}

impl<T> TelegramResponse<T> {
    /// The result of a successful answer.
    pub fn into_result(self) -> (r: Result<T, TelegramError>)
        ensures
            self.ok && self.result is Some ==> (r matches Ok(d) && d == self.result->0),
            self.ok && self.result is None ==> (r matches Err(TelegramError::Malformed(m)) && m@
                == "Telegram response missing result"@),
            !self.ok ==> (r matches Err(TelegramError::Api(m)) && m@ == match self.description {
                Some(e) => e@,
                None => "Telegram request failed"@,
            }),
    {
        if self.ok {
            match self.result {
                Some(d) => Ok(d),
                None => Err(TelegramError::Malformed(owned("Telegram response missing result"))),
            }
        } else {
            match self.description {
                Some(e) => Err(TelegramError::Api(e)),
                None => Err(TelegramError::Api(owned("Telegram request failed"))),
            }
        }
    }
}


// ---------------------------------------------------------------------------
// Joining lines
// ---------------------------------------------------------------------------
/// The parts, with `sep` between each two.
pub open spec fn join_with(parts: Seq<Seq<char>>, sep: Seq<char>) -> Seq<char>
    decreases parts.len(),
{
    if parts.len() == 0 {
        Seq::empty()
    } else if parts.len() == 1 {
        parts[0]
    } else {
        join_with(parts.drop_last(), sep) + sep + parts.last()
    }
}

/// The strings, with `sep` between each two (`[String]::join`).
pub fn join_strings(parts: &Vec<String>, sep: &str) -> (r: String)
    ensures
        r@ == join_with(strings_view(parts@), sep@),
{
    let mut r = String::new();
    let mut i: usize = 0;
    while i < parts.len()
        invariant
            i <= parts.len(),
            r@ == join_with(strings_view(parts@.take(i as int)), sep@),
        decreases parts.len() - i,
    {
        let ghost before = strings_view(parts@.take(i as int));
        if i == 0 {
            r = owned(parts[i].as_str());
        } else {
            r = concat3(r.as_str(), sep, parts[i].as_str());
        }
        proof {
            let after = strings_view(parts@.take(i + 1));
            assert(after.drop_last() =~= before);
            assert(after.last() == parts@[i as int]@);
            assert(after.len() == i + 1);
        }
        i = i + 1;
    }
    assert(parts@.take(parts.len() as int) =~= parts@);
    r
}

// ---------------------------------------------------------------------------
// Records the API answers with
// ---------------------------------------------------------------------------
/// An agent as the API lists it.
#[derive(Debug)]
pub struct AgentRecord {
    pub id: String,
    pub role: String,
    pub backend: String,
    pub joined_at: Option<String>,
}

/// A task as the API lists it.
#[derive(Debug)]
pub struct TaskRecord {
    pub id: i64,
    pub creator: String,
    pub assignee: Option<String>,
    pub description: String,
    pub status: String,
    pub result: Option<String>,
    pub created_at: Option<String>,
    pub updated_at: Option<String>,
}

/// A message as the API lists it.
#[derive(Debug)]
pub struct MessageRecord {
    pub id: i64,
    pub sender: String,
    pub recipient: String,
    pub body: String,
    pub created_at: Option<String>,
    pub read: i64,
}

// ---------------------------------------------------------------------------
// Probes and errors in replies
// ---------------------------------------------------------------------------
/// A probe that found `count` items.
pub open spec fn probe_ok_text(label: Seq<char>, count: nat) -> Seq<char> {
    label + ": reachable ("@ + decimal(count) + " items)"@
}

/// A probe that failed with `e`.
pub open spec fn probe_err_text(label: Seq<char>, e: ApiError) -> Seq<char> {
    match e {
        ApiError::Unauthorized => label + ": reachable (authentication rejected)"@,
        ApiError::Http { status, .. } => label + ": reachable (HTTP "@ + http_status_text(
            status.spec_code(),
        ) + ")"@,
        ApiError::Malformed(m) => label + ": reachable (malformed response: "@ + m@ + ")"@,
        ApiError::Transport(m) => label + ": unreachable ("@ + m@ + ")"@,
    }
}

/// One line on what a probe of the API found.
pub fn describe_probe(label: &str, result: Result<usize, &ApiError>) -> (r: String)
    ensures
        r@ == match result {
            Ok(n) => probe_ok_text(label@, n as nat),
            Err(e) => probe_err_text(label@, *e),
        },
{
    match result {
        Ok(count) => {
            let n = format_usize(count);
            let head = concat3(label, ": reachable (", n.as_str());
            concat2(head.as_str(), " items)")
        },
        Err(ApiError::Unauthorized) => concat2(label, ": reachable (authentication rejected)"),
        Err(ApiError::Http { status, .. }) => {
            let t = status.text();
            let head = concat3(label, ": reachable (HTTP ", t.as_str());
            concat2(head.as_str(), ")")
        },
        Err(ApiError::Malformed(message)) => {
            let head = concat3(label, ": reachable (malformed response: ", message.as_str());
            concat2(head.as_str(), ")")
        },
        Err(ApiError::Transport(message)) => {
            let head = concat3(label, ": unreachable (", message.as_str());
            concat2(head.as_str(), ")")
        },
    }
}

/// What a chat is told of an API error.
pub open spec fn friendly_text(e: ApiError) -> Seq<char> {
    match e {
        ApiError::Unauthorized => "The API key was rejected. Check GHOSTTEAM_API_KEY."@,
        ApiError::Http { status, body } => if body@.len() == 0 {
            "The API returned HTTP "@ + http_status_text(status.spec_code()) + "."@
        } else {
            "The API returned HTTP "@ + http_status_text(status.spec_code()) + ": "@ + body@
        },
        ApiError::Malformed(m) => "The API responded, but the payload was malformed: "@ + m@,
        ApiError::Transport(m) => "The API is unreachable: "@ + m@,
    }
}

/// What a chat is told of an API error.
pub fn friendly_api_error(error: &ApiError) -> (r: String)
    ensures
        r@ == friendly_text(*error),
{
    match error {
        ApiError::Unauthorized => owned("The API key was rejected. Check GHOSTTEAM_API_KEY."),
        ApiError::Http { status, body } => {
            let t = status.text();
            if body.as_str().is_empty() {
                concat3("The API returned HTTP ", t.as_str(), ".")
            } else {
                let head = concat3("The API returned HTTP ", t.as_str(), ": ");
                concat2(head.as_str(), body.as_str())
            }
        },
        ApiError::Malformed(message) => concat2(
            "The API responded, but the payload was malformed: ",
            message.as_str(),
        ),
        ApiError::Transport(message) => concat2("The API is unreachable: ", message.as_str()),
    }
}

// ---------------------------------------------------------------------------
// /agents and /status
// ---------------------------------------------------------------------------
/// One agent's line in the agent list.
pub open spec fn agent_line(a: AgentRecord) -> Seq<char> {
    "- "@ + a.id@ + " | role="@ + a.role@ + " | backend="@ + a.backend@ + match a.joined_at {
        Some(j) => " | joined_at="@ + j@,
        None => Seq::empty(),
    }
}

/// Each agent's line.
pub open spec fn agent_lines(agents: Seq<AgentRecord>) -> Seq<Seq<char>> {
    agents.map_values(|a: AgentRecord| agent_line(a))
}

/// Each agent's id.
pub open spec fn agent_ids(agents: Seq<AgentRecord>) -> Seq<Seq<char>> {
    agents.map_values(|a: AgentRecord| a.id@)
}

/// The agent list as a chat reads it.
pub open spec fn agents_text(agents: Seq<AgentRecord>) -> Seq<char> {
    if agents.len() == 0 {
        "GhostTeam agents\nNo agents are currently registered."@
    } else {
        join_with(
            seq!["GhostTeam agents ("@ + decimal(agents.len()) + ")"@] + agent_lines(agents) + seq!["Last heartbeat/status is not exposed by the current API."@],
            "\n"@,
        )
    }
}

fn format_agent_line(a: &AgentRecord) -> (r: String)
    ensures
        r@ == agent_line(*a),
{
    let head = concat3("- ", a.id.as_str(), " | role=");
    let mid = concat3(head.as_str(), a.role.as_str(), " | backend=");
    let line = concat2(mid.as_str(), a.backend.as_str());
    match &a.joined_at {
        Some(j) => concat3(line.as_str(), " | joined_at=", j.as_str()),
        None => {
            assert(line@ + Seq::<char>::empty() =~= line@);
            line
        },
    }
}

/// The agent list as a chat reads it.
pub fn format_agents(agents: &[AgentRecord]) -> (r: String)
    ensures
        r@ == agents_text(agents@),
{
    if agents.len() == 0 {
        return owned("GhostTeam agents\nNo agents are currently registered.");
    }
    let mut lines: Vec<String> = Vec::new();
    let n = format_usize(agents.len());
    lines.push(concat3("GhostTeam agents (", n.as_str(), ")"));
    let ghost header: Seq<Seq<char>> = seq!["GhostTeam agents ("@ + decimal(agents@.len()) + ")"@];
    let mut i: usize = 0;
    while i < agents.len()
        invariant
            i <= agents@.len(),
            header == seq!["GhostTeam agents ("@ + decimal(agents@.len()) + ")"@],
            strings_view(lines@) == header + agent_lines(agents@.take(i as int)),
        decreases agents.len() - i,
    {
        let line = format_agent_line(&agents[i]);
        let ghost old_view = strings_view(lines@);
        lines.push(line);
        proof {
            let t0 = agent_lines(agents@.take(i as int));
            let t1 = agent_lines(agents@.take(i + 1));
            assert(t1 =~= t0.push(agent_line(agents@[i as int])));
            assert(strings_view(lines@) =~= old_view.push(line@));
            assert(strings_view(lines@) =~= header + t1);
        }
        i = i + 1;
    }
    lines.push(owned("Last heartbeat/status is not exposed by the current API."));
    proof {
        assert(agents@.take(agents@.len() as int) =~= agents@);
        assert(strings_view(lines@) =~= header + agent_lines(agents@) + seq!["Last heartbeat/status is not exposed by the current API."@]);
    }
    join_strings(&lines, "\n")
}

/// The ids of the first three agents.
pub open spec fn sample_ids(agents: Seq<AgentRecord>) -> Seq<Seq<char>> {
    agent_ids(agents.take(if agents.len() < 3 { agents.len() as int } else { 3 }))
}

/// The probe line of a listing.
pub open spec fn listing_probe_text<T>(label: Seq<char>, r: Result<Vec<T>, ApiError>) -> Seq<
    char,
> {
    match r {
        Ok(v) => probe_ok_text(label, v@.len()),
        Err(e) => probe_err_text(label, e),
    }
}

/// The `/status` reply.
pub open spec fn status_reply_text(
    api_base_url: Seq<char>,
    timestamp: Seq<char>,
    agents: Result<Vec<AgentRecord>, ApiError>,
    tasks: Result<Vec<TaskRecord>, ApiError>,
) -> Seq<char> {
    let lines = seq![
        "GhostTeam status"@,
        "API base URL: "@ + api_base_url,
        "Timestamp: "@ + timestamp,
        listing_probe_text("Agents"@, agents),
        listing_probe_text("Tasks"@, tasks),
        "Messages: summary is not exposed by the current API shape"@,
    ];
    match agents {
        Ok(v) => if v@.len() > 0 {
            join_with(lines.push("Active agents: "@ + join_with(sample_ids(v@), ", "@)), "\n"@)
        } else {
            join_with(lines, "\n"@)
        },
        Err(_) => join_with(lines, "\n"@),
    }
}

fn describe_listing<T>(label: &str, r: &Result<Vec<T>, ApiError>) -> (s: String)
    ensures
        s@ == listing_probe_text(label@, *r),
{
    match r {
        Ok(v) => describe_probe(label, Ok(v.len())),
        Err(e) => describe_probe(label, Err(e)),
    }
}

/// The `/status` reply: where the API is, when it was asked, what the
/// agent and task listings gave, and the first three agents.
pub fn status_message(
    api_base_url: &str,
    timestamp: &str,
    agents: &Result<Vec<AgentRecord>, ApiError>,
    tasks: &Result<Vec<TaskRecord>, ApiError>,
) -> (r: String)
    ensures
        r@ == status_reply_text(api_base_url@, timestamp@, *agents, *tasks),
{
    let mut lines: Vec<String> = Vec::new();
    lines.push(owned("GhostTeam status"));
    lines.push(concat2("API base URL: ", api_base_url));
    lines.push(concat2("Timestamp: ", timestamp));
    lines.push(describe_listing("Agents", agents));
    lines.push(describe_listing("Tasks", tasks));
    lines.push(owned("Messages: summary is not exposed by the current API shape"));
    let ghost base = strings_view(lines@);
    assert(base =~= seq![
        "GhostTeam status"@,
        "API base URL: "@ + api_base_url@,
        "Timestamp: "@ + timestamp@,
        listing_probe_text("Agents"@, *agents),
        listing_probe_text("Tasks"@, *tasks),
        "Messages: summary is not exposed by the current API shape"@,
    ]);
    if let Ok(list) = agents {
        if list.len() > 0 {
            let mut ids: Vec<String> = Vec::new();
            let mut i: usize = 0;
            while i < list.len() && i < 3
                invariant
                    i <= list@.len(),
                    i <= 3,
                    strings_view(ids@) == agent_ids(list@.take(i as int)),
                decreases list.len() - i,
            {
                let id = owned(list[i].id.as_str());
                let ghost old_view = strings_view(ids@);
                ids.push(id);
                proof {
                    let t0 = agent_ids(list@.take(i as int));
                    let t1 = agent_ids(list@.take(i + 1));
                    assert(t1 =~= t0.push(list@[i as int].id@));
                    assert(strings_view(ids@) =~= old_view.push(id@));
                }
                i = i + 1;
            }
            assert(strings_view(ids@) =~= sample_ids(list@));
            let joined = join_strings(&ids, ", ");
            lines.push(concat2("Active agents: ", joined.as_str()));
            assert(strings_view(lines@) =~= base.push("Active agents: "@ + joined@));
        }
    }
    join_strings(&lines, "\n")
}

/// The `/agents` reply.
pub open spec fn agents_reply_text(
    api_base_url: Seq<char>,
    agents: Result<Vec<AgentRecord>, ApiError>,
) -> Seq<char> {
    match agents {
        Ok(v) => agents_text(v@),
        Err(e) => "GhostTeam agents\nUnable to load registered agents from "@ + api_base_url
            + ".\n"@ + friendly_text(e),
    }
}

/// The `/agents` reply: the list, or why it could not be had.
pub fn agents_message(api_base_url: &str, agents: &Result<Vec<AgentRecord>, ApiError>) -> (r:
    String)
    ensures
        r@ == agents_reply_text(api_base_url@, *agents),
{
    match agents {
        Ok(list) => format_agents(list.as_slice()),
        Err(e) => {
            let f = friendly_api_error(e);
            let head = concat3(
                "GhostTeam agents\nUnable to load registered agents from ",
                api_base_url,
                ".\n",
            );
            concat2(head.as_str(), f.as_str())
        },
    }
}


/// Appends the strings of `more` to `lines`.
fn append_lines(lines: &mut Vec<String>, more: Vec<String>)
    ensures
        strings_view(final(lines)@) == strings_view(old(lines)@) + strings_view(more@),
{
    let mut more = more;
    let ghost m = more@;
    lines.append(&mut more);
    assert(strings_view(lines@) =~= strings_view(old(lines)@) + strings_view(m));
}

// ---------------------------------------------------------------------------
// /help
// ---------------------------------------------------------------------------
/// The commands the bridge knows, one per line.
pub const HELP_TEXT: &'static str = "GhostTeam Telegram bridge is online.\nCommands:\n- /help\n- /status\n- /status <agent>\n- /agents\n- /tasks\n- /assign <agent> \"<task>\"\n- /handoff <agent> \"<task>\"\n- /logs <agent>";

/// The `/help` reply, also given to anything the bridge does not know.
pub fn help_message() -> (r: String)
    ensures
        r@ == HELP_TEXT@,
{
    owned(HELP_TEXT)
}

// ---------------------------------------------------------------------------
// /tasks
// ---------------------------------------------------------------------------
/// Who a task is assigned to, as a reply names it.
pub open spec fn assignee_text(a: Option<String>) -> Seq<char> {
    match a {
        Some(s) => s@,
        None => "unassigned"@,
    }
}

/// One task's line.
pub open spec fn task_line(t: TaskRecord) -> Seq<char> {
    "- #"@ + decimal_int(t.id as int) + " ["@ + t.status@ + "] "@ + t.creator@ + " -> "@
        + assignee_text(t.assignee) + ": "@ + t.description@
}

/// Each task's line.
pub open spec fn task_lines(tasks: Seq<TaskRecord>) -> Seq<Seq<char>> {
    tasks.map_values(|t: TaskRecord| task_line(t))
}

/// The task list as a chat reads it.
pub open spec fn tasks_text(tasks: Seq<TaskRecord>) -> Seq<char> {
    if tasks.len() == 0 {
        "GhostTeam tasks\nNo tasks are currently recorded."@
    } else {
        join_with(seq!["GhostTeam tasks ("@ + decimal(tasks.len()) + ")"@] + task_lines(tasks), "\n"@)
    }
}

fn format_task_line(t: &TaskRecord) -> (r: String)
    ensures
        r@ == task_line(*t),
{
    let id = format_i64(t.id);
    let a = concat3("- #", id.as_str(), " [");
    let b = concat3(a.as_str(), t.status.as_str(), "] ");
    let c = concat3(b.as_str(), t.creator.as_str(), " -> ");
    let who = match &t.assignee {
        Some(s) => owned(s.as_str()),
        None => owned("unassigned"),
    };
    let d = concat3(c.as_str(), who.as_str(), ": ");
    concat2(d.as_str(), t.description.as_str())
}

fn format_task_lines(tasks: &Vec<TaskRecord>) -> (r: Vec<String>)
    ensures
        strings_view(r@) == task_lines(tasks@),
{
    let mut lines: Vec<String> = Vec::new();
    let mut i: usize = 0;
    while i < tasks.len()
        invariant
            i <= tasks@.len(),
            strings_view(lines@) == task_lines(tasks@.take(i as int)),
        decreases tasks.len() - i,
    {
        let line = format_task_line(&tasks[i]);
        let ghost old_view = strings_view(lines@);
        lines.push(line);
        proof {
            let t0 = task_lines(tasks@.take(i as int));
            let t1 = task_lines(tasks@.take(i + 1));
            assert(t1 =~= t0.push(task_line(tasks@[i as int])));
            assert(strings_view(lines@) =~= old_view.push(line@));
        }
        i = i + 1;
    }
    assert(tasks@.take(tasks@.len() as int) =~= tasks@);
    lines
}

/// The `/tasks` reply.
pub open spec fn tasks_reply_text(api_base_url: Seq<char>, tasks: Result<Vec<TaskRecord>, ApiError>) -> Seq<char> {
    match tasks {
        Ok(v) => tasks_text(v@),
        Err(e) => "GhostTeam tasks\nUnable to load tasks from "@ + api_base_url + ".\n"@
            + friendly_text(e),
    }
}

/// The `/tasks` reply: each task with its status and who holds it, or why
/// the list could not be had.
pub fn tasks_message(api_base_url: &str, tasks: &Result<Vec<TaskRecord>, ApiError>) -> (r: String)
    ensures
        r@ == tasks_reply_text(api_base_url@, *tasks),
{
    match tasks {
        Ok(list) => {
            if list.len() == 0 {
                return owned("GhostTeam tasks\nNo tasks are currently recorded.");
            }
            let mut lines: Vec<String> = Vec::new();
            let n = format_usize(list.len());
            lines.push(concat3("GhostTeam tasks (", n.as_str(), ")"));
            let ghost head: Seq<Seq<char>> = seq!["GhostTeam tasks ("@ + decimal(list@.len()) + ")"@];
            assert(strings_view(lines@) =~= head);
            append_lines(&mut lines, format_task_lines(list));
            assert(strings_view(lines@) =~= head + task_lines(list@));
            join_strings(&lines, "\n")
        },
        Err(e) => {
            let f = friendly_api_error(e);
            let head = concat3("GhostTeam tasks\nUnable to load tasks from ", api_base_url, ".\n");
            concat2(head.as_str(), f.as_str())
        },
    }
}

// ---------------------------------------------------------------------------
// /assign and /handoff
// ---------------------------------------------------------------------------
/// Who the tasks the bridge creates come from.
pub const TELEGRAM_TASK_CREATOR: &'static str = "telegram";

/// The description of a task handed over from a chat.
pub fn handoff_description(description: &str) -> (r: String)
    ensures
        r@ == "Handoff via Telegram: "@ + description@,
{
    concat2("Handoff via Telegram: ", description)
}

/// What the bridge sends to `POST /tasks/create`.
#[derive(Debug)]
pub struct TaskCreateRequest {
    pub from: String,
    pub to: String,
    pub description: String,
}

/// The task a command asks the API to create: for `/assign`, one from the
/// bridge to the agent with the description as given; for `/handoff`, the
/// same with the handoff description; no task for any other command.
pub fn task_create_request(command: &BridgeCommand) -> (r: Option<TaskCreateRequest>)
    ensures
        match command.view() {
            BridgeCommandView::Assign(agent, description) => r matches Some(q) && q.from@
                == TELEGRAM_TASK_CREATOR@ && q.to@ == agent && q.description@ == description,
            BridgeCommandView::Handoff(agent, description) => r matches Some(q) && q.from@
                == TELEGRAM_TASK_CREATOR@ && q.to@ == agent && q.description@
                == "Handoff via Telegram: "@ + description,
            _ => r is None,
        },
{
    match command {
        BridgeCommand::Assign { agent, description } => Some(
            TaskCreateRequest {
                from: owned(TELEGRAM_TASK_CREATOR),
                to: owned(agent.as_str()),
                description: owned(description.as_str()),
            },
        ),
        BridgeCommand::Handoff { agent, description } => Some(
            TaskCreateRequest {
                from: owned(TELEGRAM_TASK_CREATOR),
                to: owned(agent.as_str()),
                description: handoff_description(description.as_str()),
            },
        ),
        _ => None,
    }
}

/// Where a `POST /tasks/create` answer may carry the new task's id, as JSON
/// pointers, in the order they are looked at: at the top, in `data.task`,
/// and in `data`.
pub const ID_AT_TOP: &'static str = "/id";

/// See `ID_AT_TOP`.
pub const ID_IN_DATA_TASK: &'static str = "/data/task/id";

/// See `ID_AT_TOP`.
pub const ID_IN_DATA: &'static str = "/data/id";

/// What a JSON body holds at JSON pointer `pointer` when it is an integer
/// that fits `i64` (none otherwise), or why the body is not JSON.
pub uninterp spec fn json_pointer_int(body: Seq<char>, pointer: Seq<char>) -> Result<Option<i64>, Seq<char>>;

/// Reads the value at JSON pointer `pointer` of a JSON body with
/// `serde_json`: the body's parse as a JSON value, then `Value::pointer`,
/// then `Value::as_i64`.
#[verifier::external_body]
fn json_pointer_i64(body: &str, pointer: &str) -> (r: Result<Option<i64>, String>)
    ensures
        match r {
            Ok(v) => json_pointer_int(body@, pointer@) == Ok::<Option<i64>, Seq<char>>(v),
            Err(e) => json_pointer_int(body@, pointer@) == Err::<Option<i64>, Seq<char>>(e@),
        },
{
    match serde_json::from_str::<serde_json::Value>(body) {
        Ok(value) => Ok(value.pointer(pointer).and_then(serde_json::Value::as_i64)),
        Err(error) => Err(error.to_string()),
    }
}

/// The id a task-creation answer reports, looking at `pointers` in turn:
/// the first integer found, a body that is not JSON reported with why, and
/// when no pointer holds one, that the id is missing.
pub open spec fn created_id_from(body: Seq<char>, pointers: Seq<Seq<char>>) -> Result<i64, Seq<char>>
    decreases pointers.len(),
{
    if pointers.len() == 0 {
        Err("task response was missing an id"@)
    } else {
        match json_pointer_int(body, pointers[0]) {
            Err(e) => Err(e),
            Ok(Some(id)) => Ok(id),
            Ok(None) => created_id_from(body, pointers.drop_first()),
        }
    }
}

/// The places a task-creation answer is searched for the new task's id.
pub open spec fn created_id_pointers() -> Seq<Seq<char>> {
    seq![ID_AT_TOP@, ID_IN_DATA_TASK@, ID_IN_DATA@]
}

/// The id of the task an answer to `POST /tasks/create` reports: the first
/// integer at `ID_AT_TOP`, `ID_IN_DATA_TASK`, `ID_IN_DATA`.
pub fn created_task_id(body: &str) -> (r: Result<i64, ApiError>)
    ensures
        match created_id_from(body@, created_id_pointers()) {
            Ok(id) => r == Ok::<i64, ApiError>(id),
            Err(m) => r matches Err(ApiError::Malformed(x)) && x@ == m,
        },
{
    let ghost ps = created_id_pointers();
    proof {
        reveal_with_fuel(created_id_from, 4);
    }
    assert(ps[0] == ID_AT_TOP@ && ps[1] == ID_IN_DATA_TASK@ && ps[2] == ID_IN_DATA@);
    assert(ps.drop_first() =~= seq![ID_IN_DATA_TASK@, ID_IN_DATA@]);
    assert(ps.drop_first().drop_first() =~= seq![ID_IN_DATA@]);
    assert(ps.drop_first().drop_first().drop_first() =~= Seq::<Seq<char>>::empty());
    match json_pointer_i64(body, ID_AT_TOP) {
        Err(e) => return Err(ApiError::Malformed(e)),
        Ok(Some(id)) => return Ok(id),
        Ok(None) => {},
    }
    match json_pointer_i64(body, ID_IN_DATA_TASK) {
        Err(e) => return Err(ApiError::Malformed(e)),
        Ok(Some(id)) => return Ok(id),
        Ok(None) => {},
    }
    match json_pointer_i64(body, ID_IN_DATA) {
        Err(e) => Err(ApiError::Malformed(e)),
        Ok(Some(id)) => Ok(id),
        Ok(None) => Err(ApiError::Malformed(owned("task response was missing an id"))),
    }
}

/// The reply to `/assign` (or, with `handoff`, to `/handoff`).
pub open spec fn task_created_text(handoff: bool, agent: Seq<char>, created: Result<i64, ApiError>) -> Seq<char> {
    match created {
        Ok(id) => if handoff {
            "Task handoff queued for "@ + agent + " (#"@ + decimal_int(id as int) + ")."@
        } else {
            "Task assigned to "@ + agent + " (#"@ + decimal_int(id as int) + ")."@
        },
        Err(e) => if handoff {
            "Unable to queue the handoff for "@ + agent + ".\n"@ + friendly_text(e)
        } else {
            "Unable to assign the task to "@ + agent + ".\n"@ + friendly_text(e)
        },
    }
}

/// The reply to `/assign` (or, with `handoff`, to `/handoff`): the id of
/// the new task, or why it was not created.
pub fn task_created_message(handoff: bool, agent: &str, created: &Result<i64, ApiError>) -> (r: String)
    ensures
        r@ == task_created_text(handoff, agent@, *created),
{
    match created {
        Ok(id) => {
            let n = format_i64(*id);
            let head = if handoff {
                concat3("Task handoff queued for ", agent, " (#")
            } else {
                concat3("Task assigned to ", agent, " (#")
            };
            concat3(head.as_str(), n.as_str(), ").")
        },
        Err(e) => {
            let f = friendly_api_error(e);
            let head = if handoff {
                concat3("Unable to queue the handoff for ", agent, ".\n")
            } else {
                concat3("Unable to assign the task to ", agent, ".\n")
            };
            concat2(head.as_str(), f.as_str())
        },
    }
}

// ---------------------------------------------------------------------------
// /logs
// ---------------------------------------------------------------------------
/// The `/logs` reply.
pub open spec fn logs_text(agent: Seq<char>, lines: Result<Vec<String>, ApiError>) -> Seq<char> {
    match lines {
        Ok(v) => if v@.len() == 0 {
            "GhostTeam logs for "@ + agent + "\nNo recent log lines."@
        } else {
            join_with(seq!["GhostTeam logs for "@ + agent] + strings_view(v@), "\n"@)
        },
        Err(e) => "GhostTeam logs for "@ + agent + "\nUnable to stream logs.\n"@ + friendly_text(e),
    }
}

/// The `/logs` reply: the agent's recent log lines, or why they could not
/// be had.
pub fn logs_message(agent: &str, lines: &Result<Vec<String>, ApiError>) -> (r: String)
    ensures
        r@ == logs_text(agent@, *lines),
{
    match lines {
        Ok(v) => {
            if v.len() == 0 {
                return concat3("GhostTeam logs for ", agent, "\nNo recent log lines.");
            }
            let mut all: Vec<String> = Vec::new();
            all.push(concat2("GhostTeam logs for ", agent));
            let ghost head: Seq<Seq<char>> = seq!["GhostTeam logs for "@ + agent@];
            assert(strings_view(all@) =~= head);
            let mut copy: Vec<String> = Vec::new();
            let mut i: usize = 0;
            while i < v.len()
                invariant
                    i <= v@.len(),
                    strings_view(copy@) == strings_view(v@.take(i as int)),
                decreases v.len() - i,
            {
                let s = owned(v[i].as_str());
                let ghost old_view = strings_view(copy@);
                copy.push(s);
                proof {
                    assert(strings_view(v@.take(i + 1)) =~= strings_view(v@.take(i as int)).push(
                        v@[i as int]@,
                    ));
                    assert(strings_view(copy@) =~= old_view.push(s@));
                }
                i = i + 1;
            }
            assert(v@.take(v@.len() as int) =~= v@);
            append_lines(&mut all, copy);
            assert(strings_view(all@) =~= head + strings_view(v@));
            join_strings(&all, "\n")
        },
        Err(e) => {
            let f = friendly_api_error(e);
            let head = concat3("GhostTeam logs for ", agent, "\nUnable to stream logs.\n");
            concat2(head.as_str(), f.as_str())
        },
    }
}


// ---------------------------------------------------------------------------
// /status <agent>
// ---------------------------------------------------------------------------
/// The messages not read yet, in order.
pub open spec fn unread_records(ms: Seq<MessageRecord>) -> Seq<MessageRecord>
    decreases ms.len(),
{
    if ms.len() == 0 {
        Seq::empty()
    } else if ms.last().read == 0 {
        unread_records(ms.drop_last()).push(ms.last())
    } else {
        unread_records(ms.drop_last())
    }
}

/// The tasks assigned to `agent`, in order.
pub open spec fn assigned_records(ts: Seq<TaskRecord>, agent: Seq<char>) -> Seq<TaskRecord>
    decreases ts.len(),
{
    if ts.len() == 0 {
        Seq::empty()
    } else if ts.last().assignee matches Some(a) && a@ == agent {
        assigned_records(ts.drop_last(), agent).push(ts.last())
    } else {
        assigned_records(ts.drop_last(), agent)
    }
}

/// One unread message's line.
pub open spec fn message_line(m: MessageRecord) -> Seq<char> {
    "- "@ + m.sender@ + ": "@ + m.body@
}

/// Each message's line.
pub open spec fn message_lines(ms: Seq<MessageRecord>) -> Seq<Seq<char>> {
    ms.map_values(|m: MessageRecord| message_line(m))
}

/// One assigned task's line.
pub open spec fn assigned_line(t: TaskRecord) -> Seq<char> {
    "- #"@ + decimal_int(t.id as int) + " ["@ + t.status@ + "] "@ + t.description@
}

/// Each assigned task's line.
pub open spec fn assigned_lines(ts: Seq<TaskRecord>) -> Seq<Seq<char>> {
    ts.map_values(|t: TaskRecord| assigned_line(t))
}

/// The unread-messages part of an agent's status.
pub open spec fn message_section(messages: Result<Vec<MessageRecord>, ApiError>) -> Seq<Seq<char>> {
    match messages {
        Ok(v) => seq!["Unread messages: "@ + decimal(unread_records(v@).len())] + message_lines(
            unread_records(v@),
        ),
        Err(e) => seq!["Unread messages: unavailable ("@ + friendly_text(e) + ")"@],
    }
}

/// The assigned-tasks part of an agent's status.
pub open spec fn task_section(tasks: Result<Vec<TaskRecord>, ApiError>, agent: Seq<char>) -> Seq<
    Seq<char>,
> {
    match tasks {
        Ok(v) => seq!["Assigned tasks: "@ + decimal(assigned_records(v@, agent).len())]
            + assigned_lines(assigned_records(v@, agent)),
        Err(e) => seq!["Assigned tasks: unavailable ("@ + friendly_text(e) + ")"@],
    }
}

/// The `/status <agent>` reply.
pub open spec fn agent_status_text(
    agent_id: Seq<char>,
    agent: Result<AgentRecord, ApiError>,
    messages: Result<Vec<MessageRecord>, ApiError>,
    tasks: Result<Vec<TaskRecord>, ApiError>,
) -> Seq<char> {
    let header = "GhostTeam agent status for "@ + agent_id;
    match agent {
        Err(e) => header + "\nUnable to load the agent.\n"@ + friendly_text(e),
        Ok(a) => join_with(
            seq![header, "Role: "@ + a.role@, "Backend: "@ + a.backend@] + match a.joined_at {
                Some(j) => seq!["Joined at: "@ + j@],
                None => Seq::empty(),
            } + message_section(messages) + task_section(tasks, agent_id),
            "\n"@,
        ),
    }
}

fn unread_message_lines(ms: &Vec<MessageRecord>) -> (r: (Vec<String>, usize))
    ensures
        strings_view(r.0@) == message_lines(unread_records(ms@)),
        r.1 == unread_records(ms@).len(),
{
    let mut lines: Vec<String> = Vec::new();
    let mut count: usize = 0;
    let mut i: usize = 0;
    while i < ms.len()
        invariant
            i <= ms@.len(),
            strings_view(lines@) == message_lines(unread_records(ms@.take(i as int))),
            count == unread_records(ms@.take(i as int)).len(),
            count <= i,
        decreases ms.len() - i,
    {
        let ghost before = unread_records(ms@.take(i as int));
        assert(ms@.take(i + 1).drop_last() =~= ms@.take(i as int));
        let m = &ms[i];
        if m.read == 0 {
            let head = concat3("- ", m.sender.as_str(), ": ");
            let line = concat2(head.as_str(), m.body.as_str());
            let ghost old_view = strings_view(lines@);
            lines.push(line);
            count = count + 1;
            proof {
                assert(message_lines(before.push(*m)) =~= message_lines(before).push(
                    message_line(*m),
                ));
                assert(strings_view(lines@) =~= old_view.push(line@));
            }
        }
        i = i + 1;
    }
    assert(ms@.take(ms@.len() as int) =~= ms@);
    (lines, count)
}

fn assigned_task_lines(ts: &Vec<TaskRecord>, agent: &str) -> (r: (Vec<String>, usize))
    ensures
        strings_view(r.0@) == assigned_lines(assigned_records(ts@, agent@)),
        r.1 == assigned_records(ts@, agent@).len(),
{
    let mut lines: Vec<String> = Vec::new();
    let mut count: usize = 0;
    let mut i: usize = 0;
    while i < ts.len()
        invariant
            i <= ts@.len(),
            strings_view(lines@) == assigned_lines(assigned_records(ts@.take(i as int), agent@)),
            count == assigned_records(ts@.take(i as int), agent@).len(),
            count <= i,
        decreases ts.len() - i,
    {
        let ghost before = assigned_records(ts@.take(i as int), agent@);
        assert(ts@.take(i + 1).drop_last() =~= ts@.take(i as int));
        let t = &ts[i];
        let mine = match &t.assignee {
            Some(a) => str_eq(a.as_str(), agent),
            None => false,
        };
        if mine {
            let id = format_i64(t.id);
            let a = concat3("- #", id.as_str(), " [");
            let b = concat3(a.as_str(), t.status.as_str(), "] ");
            let line = concat2(b.as_str(), t.description.as_str());
            let ghost old_view = strings_view(lines@);
            lines.push(line);
            count = count + 1;
            proof {
                assert(assigned_lines(before.push(*t)) =~= assigned_lines(before).push(
                    assigned_line(*t),
                ));
                assert(strings_view(lines@) =~= old_view.push(line@));
            }
        }
        i = i + 1;
    }
    assert(ts@.take(ts@.len() as int) =~= ts@);
    (lines, count)
}

/// The `/status <agent>` reply: the agent's role and backend, its unread
/// messages and the tasks assigned to it.
pub fn agent_status_message(
    agent_id: &str,
    agent: &Result<AgentRecord, ApiError>,
    messages: &Result<Vec<MessageRecord>, ApiError>,
    tasks: &Result<Vec<TaskRecord>, ApiError>,
) -> (r: String)
    ensures
        r@ == agent_status_text(agent_id@, *agent, *messages, *tasks),
{
    let header = concat2("GhostTeam agent status for ", agent_id);
    match agent {
        Err(e) => {
            let f = friendly_api_error(e);
            concat3(header.as_str(), "\nUnable to load the agent.\n", f.as_str())
        },
        Ok(a) => {
            let mut lines: Vec<String> = Vec::new();
            lines.push(header);
            lines.push(concat2("Role: ", a.role.as_str()));
            lines.push(concat2("Backend: ", a.backend.as_str()));
            if let Some(j) = &a.joined_at {
                lines.push(concat2("Joined at: ", j.as_str()));
            }
            let ghost first = strings_view(lines@);
            assert(first =~= seq![
                "GhostTeam agent status for "@ + agent_id@,
                "Role: "@ + a.role@,
                "Backend: "@ + a.backend@,
            ] + match a.joined_at {
                Some(j) => seq!["Joined at: "@ + j@],
                None => Seq::empty(),
            });
            let mut section: Vec<String> = Vec::new();
            match messages {
                Ok(v) => {
                    let (mlines, n) = unread_message_lines(v);
                    let count = format_usize(n);
                    section.push(concat2("Unread messages: ", count.as_str()));
                    append_lines(&mut section, mlines);
                },
                Err(e) => {
                    let f = friendly_api_error(e);
                    section.push(concat3("Unread messages: unavailable (", f.as_str(), ")"));
                },
            }
            assert(strings_view(section@) =~= message_section(*messages));
            append_lines(&mut lines, section);
            let mut tsection: Vec<String> = Vec::new();
            match tasks {
                Ok(v) => {
                    let (tlines, n) = assigned_task_lines(v, agent_id);
                    let count = format_usize(n);
                    tsection.push(concat2("Assigned tasks: ", count.as_str()));
                    append_lines(&mut tsection, tlines);
                },
                Err(e) => {
                    let f = friendly_api_error(e);
                    tsection.push(concat3("Assigned tasks: unavailable (", f.as_str(), ")"));
                },
            }
            assert(strings_view(tsection@) =~= task_section(*tasks, agent_id@));
            append_lines(&mut lines, tsection);
            join_strings(&lines, "\n")
        },
    }
}

} // verus!
