//! The command line: the commands it takes, what each does to the
//! workspace, and the lines it prints.  Reading arguments and printing stay
//! with the program; what it cannot do here (run the agent loop, touch files,
//! probe the daemon) comes back as an action for the program to carry out.
use vstd::prelude::*;
use crate::db::{
    candidate, first_free, has_agent, is_new_message, is_new_task, mark_read_before,
    next_message_id, next_task_id, opt_view, unread_of, AgentRow, IdMappingHistoryRow,
    IdMappingRow, MessageRow, TaskRow, Workspace,
};
use crate::konnect::{strings_view, Environment, HealthResponse, RuntimeStatus};
use crate::model::ghostos::{unknown_key_message, GhostOsConfig};
use crate::tasks::{
    history_appended, or_empty, task_line_text, task_row_lines, tasks_after_update,
};
use crate::telegram::reply::{join_with, join_strings};
use crate::text::{concat2, concat3, decimal, decimal_int, format_i64, format_usize, owned};

verus! {

broadcast use vstd::string::group_string_axioms;

/// The program's arguments.
#[derive(Debug)]
pub struct Cli {
    /// Start the HTTP API server instead of running a command.
    pub api: bool,
    pub command: Option<Commands>,
}

/// The commands.
#[derive(Debug)]
pub enum Commands {
    Version,
    Init,
    Join { id: String, role: String, backend: String },
    Leave { id: String },
    Agents,
    Send { from: String, to: String, message: String },
    Receive { id: String, wait: bool },
    TaskCreate { from: String, to: String, description: String },
    TaskAck { id: i64, worker: String },
    TaskComplete { id: i64, worker: String, result: String },
    TaskRequeue { id: i64 },
    TaskList,
    Config,
    SetConfig { key: String, value: String },
    KonnectStatus,
    KonnectMappings,
    KonnectReplay { json: bool },
    KonnectExport { json: bool, output: Option<String> },
    Bench,
    ApiDocs,
}

// ---------------------------------------------------------------------------
// Lines
// ---------------------------------------------------------------------------
/// How `agents` lists an agent.
pub open spec fn agent_row_line(a: AgentRow) -> Seq<char> {
    a.id@ + "\t"@ + a.role@ + "\t"@ + a.backend@ + "\t"@ + or_empty(opt_view(a.joined_at))
}

/// How `receive` lists a message.
pub open spec fn message_row_line(m: MessageRow) -> Seq<char> {
    decimal_int(m.id as int) + "\t"@ + m.sender@ + "\t"@ + m.recipient@ + "\t"@ + m.body@ + "\t"@
        + or_empty(opt_view(m.created_at)) + "\t"@ + decimal_int(m.read as int)
}

/// How `konnect-mappings` lists a mapping.
pub open spec fn mapping_row_line(m: IdMappingRow) -> Seq<char> {
    m.entity_kind@ + "\t"@ + m.local_id@ + "\t"@ + m.remote_id@ + "\t"@ + or_empty(
        opt_view(m.remote_source),
    ) + "\t"@ + or_empty(opt_view(m.created_at)) + "\t"@ + or_empty(opt_view(m.updated_at))
}

/// How the mapping history lists an entry, with its line feed.
pub open spec fn history_entry_line(h: IdMappingHistoryRow) -> Seq<char> {
    or_empty(opt_view(h.recorded_at)) + "\t"@ + h.entity_kind@ + "\t"@ + h.local_id@ + "\t"@
        + h.remote_id@ + "\t"@ + or_empty(opt_view(h.remote_source)) + "\t"@ + h.action@ + "\n"@
}

/// How `konnect-status` lists a registration.
pub open spec fn environment_line(e: Environment) -> Seq<char> {
    e.id@ + "\t"@ + e.display_name@ + "\t"@ + e.kind@ + "\t"@ + e.status@
}

pub open spec fn agent_row_lines(s: Seq<AgentRow>) -> Seq<Seq<char>> {
    s.map_values(|a: AgentRow| agent_row_line(a))
}

pub open spec fn message_row_lines(s: Seq<MessageRow>) -> Seq<Seq<char>> {
    s.map_values(|m: MessageRow| message_row_line(m))
}

pub open spec fn mapping_row_lines(s: Seq<IdMappingRow>) -> Seq<Seq<char>> {
    s.map_values(|m: IdMappingRow| mapping_row_line(m))
}

pub open spec fn environment_lines(s: Seq<Environment>) -> Seq<Seq<char>> {
    s.map_values(|e: Environment| environment_line(e))
}

/// The ids of the agents, in listing order.
pub open spec fn agent_id_list(s: Seq<AgentRow>) -> Seq<Seq<char>> {
    s.map_values(|a: AgentRow| a.id@)
}

/// The entries of the mapping history, one after the other.
pub open spec fn history_text(s: Seq<IdMappingHistoryRow>) -> Seq<char>
    decreases s.len(),
{
    if s.len() == 0 {
        Seq::empty()
    } else {
        history_text(s.drop_last()) + history_entry_line(s.last())
    }
}

fn opt_text(o: &Option<String>) -> (r: String)
    ensures
        r@ == or_empty(opt_view(*o)),
{
    match o {
        Some(s) => owned(s.as_str()),
        None => String::new(),
    }
}

fn agent_row_text(a: &AgentRow) -> (r: String)
    ensures
        r@ == agent_row_line(*a),
{
    let j = opt_text(&a.joined_at);
    let x = concat3(a.id.as_str(), "\t", a.role.as_str());
    let y = concat3(x.as_str(), "\t", a.backend.as_str());
    concat3(y.as_str(), "\t", j.as_str())
}

fn message_row_text(m: &MessageRow) -> (r: String)
    ensures
        r@ == message_row_line(*m),
{
    let id = format_i64(m.id);
    let read = format_i64(m.read);
    let c = opt_text(&m.created_at);
    let x = concat3(id.as_str(), "\t", m.sender.as_str());
    let y = concat3(x.as_str(), "\t", m.recipient.as_str());
    let z = concat3(y.as_str(), "\t", m.body.as_str());
    let w = concat3(z.as_str(), "\t", c.as_str());
    concat3(w.as_str(), "\t", read.as_str())
}

fn mapping_row_text(m: &IdMappingRow) -> (r: String)
    ensures
        r@ == mapping_row_line(*m),
{
    let s = opt_text(&m.remote_source);
    let c = opt_text(&m.created_at);
    let u = opt_text(&m.updated_at);
    let x = concat3(m.entity_kind.as_str(), "\t", m.local_id.as_str());
    let y = concat3(x.as_str(), "\t", m.remote_id.as_str());
    let z = concat3(y.as_str(), "\t", s.as_str());
    let w = concat3(z.as_str(), "\t", c.as_str());
    concat3(w.as_str(), "\t", u.as_str())
}

fn history_entry_text(h: &IdMappingHistoryRow) -> (r: String)
    ensures
        r@ == history_entry_line(*h),
{
    let at = opt_text(&h.recorded_at);
    let s = opt_text(&h.remote_source);
    let x = concat3(at.as_str(), "\t", h.entity_kind.as_str());
    let y = concat3(x.as_str(), "\t", h.local_id.as_str());
    let z = concat3(y.as_str(), "\t", h.remote_id.as_str());
    let w = concat3(z.as_str(), "\t", s.as_str());
    let v = concat3(w.as_str(), "\t", h.action.as_str());
    concat2(v.as_str(), "\n")
}


fn agent_lines(rows: &Vec<AgentRow>) -> (r: Vec<String>)
    ensures
        strings_view(r@) == agent_row_lines(rows@),
{
    let mut r: Vec<String> = Vec::new();
    let mut i: usize = 0;
    while i < rows.len()
        invariant
            i <= rows@.len(),
            strings_view(r@) == agent_row_lines(rows@.take(i as int)),
        decreases rows.len() - i,
    {
        let line = agent_row_text(&rows[i]);
        let ghost before = strings_view(r@);
        r.push(line);
        assert(strings_view(r@) =~= before.push(line@));
        assert(agent_row_lines(rows@.take(i + 1)) =~= agent_row_lines(rows@.take(i as int)).push(
            agent_row_line(rows@[i as int]),
        ));
        i = i + 1;
    }
    assert(rows@.take(rows@.len() as int) =~= rows@);
    r
}

fn message_lines(rows: &Vec<MessageRow>) -> (r: Vec<String>)
    ensures
        strings_view(r@) == message_row_lines(rows@),
{
    let mut r: Vec<String> = Vec::new();
    let mut i: usize = 0;
    while i < rows.len()
        invariant
            i <= rows@.len(),
            strings_view(r@) == message_row_lines(rows@.take(i as int)),
        decreases rows.len() - i,
    {
        let line = message_row_text(&rows[i]);
        let ghost before = strings_view(r@);
        r.push(line);
        assert(strings_view(r@) =~= before.push(line@));
        assert(message_row_lines(rows@.take(i + 1)) =~= message_row_lines(rows@.take(i as int)).push(
            message_row_line(rows@[i as int]),
        ));
        i = i + 1;
    }
    assert(rows@.take(rows@.len() as int) =~= rows@);
    r
}

fn mapping_lines(rows: &Vec<IdMappingRow>) -> (r: Vec<String>)
    ensures
        strings_view(r@) == mapping_row_lines(rows@),
{
    let mut r: Vec<String> = Vec::new();
    let mut i: usize = 0;
    while i < rows.len()
        invariant
            i <= rows@.len(),
            strings_view(r@) == mapping_row_lines(rows@.take(i as int)),
        decreases rows.len() - i,
    {
        let line = mapping_row_text(&rows[i]);
        let ghost before = strings_view(r@);
        r.push(line);
        assert(strings_view(r@) =~= before.push(line@));
        assert(mapping_row_lines(rows@.take(i + 1)) =~= mapping_row_lines(rows@.take(i as int)).push(
            mapping_row_line(rows@[i as int]),
        ));
        i = i + 1;
    }
    assert(rows@.take(rows@.len() as int) =~= rows@);
    r
}

fn environment_list_lines(rows: &Vec<Environment>) -> (r: Vec<String>)
    ensures
        strings_view(r@) == environment_lines(rows@),
{
    let mut r: Vec<String> = Vec::new();
    let mut i: usize = 0;
    while i < rows.len()
        invariant
            i <= rows@.len(),
            strings_view(r@) == environment_lines(rows@.take(i as int)),
        decreases rows.len() - i,
    {
        let e = &rows[i];
        let x = concat3(e.id.as_str(), "\t", e.display_name.as_str());
        let y = concat3(x.as_str(), "\t", e.kind.as_str());
        let line = concat3(y.as_str(), "\t", e.status.as_str());
        let ghost before = strings_view(r@);
        r.push(line);
        assert(strings_view(r@) =~= before.push(line@));
        assert(environment_lines(rows@.take(i + 1)) =~= environment_lines(rows@.take(i as int)).push(
            environment_line(rows@[i as int]),
        ));
        i = i + 1;
    }
    assert(rows@.take(rows@.len() as int) =~= rows@);
    r
}

/// What the mapping history reads as, in text.
pub open spec fn mapping_history_text(s: Seq<IdMappingHistoryRow>) -> Seq<char> {
    if s.len() == 0 {
        "No KasperKonnect mapping history recorded yet"@
    } else {
        history_text(s)
    }
}

/// The mapping history in text: one tab-separated line per entry, or a note
/// that there is none.
pub fn render_mapping_history(history: &Vec<IdMappingHistoryRow>) -> (r: String)
    ensures
        r@ == mapping_history_text(history@),
{
    if history.len() == 0 {
        return owned("No KasperKonnect mapping history recorded yet");
    }
    let mut out = String::new();
    let mut i: usize = 0;
    while i < history.len()
        invariant
            i <= history@.len(),
            out@ == history_text(history@.take(i as int)),
        decreases history.len() - i,
    {
        let line = history_entry_text(&history[i]);
        out.append(line.as_str());
        assert(history@.take(i + 1).drop_last() =~= history@.take(i as int));
        i = i + 1;
    }
    assert(history@.take(history@.len() as int) =~= history@);
    out
}

/// What `konnect-status` prints.
pub open spec fn konnect_status_text(status: Option<RuntimeStatus>) -> Seq<Seq<char>> {
    match status {
        Some(s) => if s.reachable {
            seq![
                match s.health {
                    Some(h) => "KasperKonnect: reachable\tservice="@ + h.service@ + "\tversion="@
                        + h.version@ + "\tbind="@ + h.bind@,
                    None => "KasperKonnect: reachable"@,
                },
                "Base URL: "@ + s.base_url@,
                "Daemon environments: "@ + decimal(s.environments@.len()),
                "GhostTeam registrations: "@ + decimal(s.registered@.len()),
            ] + if s.registered@.len() == 0 {
                seq!["GhostTeam registration visibility: none found"@]
            } else {
                seq!["GhostTeam registration visibility:"@] + environment_lines(s.registered@)
            }
        } else {
            seq![
                "KasperKonnect: unreachable\tbase_url="@ + s.base_url@,
                "GhostTeam registration visibility: unavailable while daemon is offline"@,
            ]
        },
        None => seq![
            "KasperKonnect: not configured"@,
            "Set GHOSTTEAM_KASPERKONNECT_URL or start the daemon locally to enable mirroring"@,
        ],
    }
}

fn append_all(lines: &mut Vec<String>, more: Vec<String>)
    ensures
        strings_view(final(lines)@) == strings_view(old(lines)@) + strings_view(more@),
{
    let mut more = more;
    let ghost m = more@;
    lines.append(&mut more);
    assert(strings_view(lines@) =~= strings_view(old(lines)@) + strings_view(m));
}

/// The lines `konnect-status` prints for what a probe of the daemon found
/// (nothing when the daemon is not configured).
pub fn konnect_status_lines(status: &Option<RuntimeStatus>) -> (r: Vec<String>)
    ensures
        strings_view(r@) == konnect_status_text(*status),
{
    let mut lines: Vec<String> = Vec::new();
    match status {
        Some(s) => {
            if s.reachable {
                match &s.health {
                    Some(h) => {
                        let x = concat3("KasperKonnect: reachable\tservice=", h.service.as_str(), "\tversion=");
                        let y = concat3(x.as_str(), h.version.as_str(), "\tbind=");
                        lines.push(concat2(y.as_str(), h.bind.as_str()));
                    },
                    None => lines.push(owned("KasperKonnect: reachable")),
                }
                lines.push(concat2("Base URL: ", s.base_url.as_str()));
                let n = format_usize(s.environments.len());
                lines.push(concat2("Daemon environments: ", n.as_str()));
                let m = format_usize(s.registered.len());
                lines.push(concat2("GhostTeam registrations: ", m.as_str()));
                let ghost head = strings_view(lines@);
                if s.registered.len() == 0 {
                    lines.push(owned("GhostTeam registration visibility: none found"));
                    assert(strings_view(lines@) =~= head + seq!["GhostTeam registration visibility: none found"@]);
                } else {
                    lines.push(owned("GhostTeam registration visibility:"));
                    let ghost mid = strings_view(lines@);
                    append_all(&mut lines, environment_list_lines(&s.registered));
                    assert(mid =~= head + seq!["GhostTeam registration visibility:"@]);
                    assert(strings_view(lines@) =~= head + (seq!["GhostTeam registration visibility:"@] + environment_lines(s.registered@)));
                }
            } else {
                lines.push(concat2("KasperKonnect: unreachable\tbase_url=", s.base_url.as_str()));
                lines.push(owned("GhostTeam registration visibility: unavailable while daemon is offline"));
            }
        },
        None => {
            lines.push(owned("KasperKonnect: not configured"));
            lines.push(owned("Set GHOSTTEAM_KASPERKONNECT_URL or start the daemon locally to enable mirroring"));
        },
    }
    assert(strings_view(lines@) =~= konnect_status_text(*status));
    lines
}

/// The line printed after the mapping history was written to `path`.
pub fn export_done_line(path: &str) -> (r: String)
    ensures
        r@ == "Exported KasperKonnect mapping history to "@ + path@,
{
    concat2("Exported KasperKonnect mapping history to ", path)
}


/// `set-config` on the loaded GhostOS configuration: for `ghostos_endpoint`
/// or `ghostos_model`, the configuration to save (that key set to `value`,
/// the other kept) and the line to print; any other key is refused with its
/// message, and then nothing is saved or printed.
pub fn set_config(config: GhostOsConfig, key: &str, value: &str) -> (r: Result<(GhostOsConfig, Vec<String>), String>)
    ensures
        key@ == "ghostos_endpoint"@ ==> (r matches Ok((c, l)) && c.ghostos_endpoint@ == value@
            && c.ghostos_model == config.ghostos_model && strings_view(l@) == seq!["Updated "@ + key@]),
        key@ == "ghostos_model"@ ==> (r matches Ok((c, l)) && c.ghostos_model@ == value@
            && c.ghostos_endpoint == config.ghostos_endpoint && strings_view(l@) == seq!["Updated "@ + key@]),
        key@ != "ghostos_endpoint"@ && key@ != "ghostos_model"@ ==> (r matches Err(m) && m@
            == unknown_key_message(key@)),
{
    let mut config = config;
    match config.set_key(key, value) {
        Ok(()) => {
            let mut lines: Vec<String> = Vec::new();
            lines.push(concat2("Updated ", key));
            assert(strings_view(lines@) =~= seq!["Updated "@ + key@]);
            Ok((config, lines))
        },
        Err(e) => Err(e),
    }
}

// ---------------------------------------------------------------------------
// Running a command
// ---------------------------------------------------------------------------
/// What the program does once a command has run on the workspace.
#[derive(Debug)]
pub enum CliAction {
    /// Print these lines.
    Print(Vec<String>),
    /// Create the workspace's files, then print these lines.
    InitWorkspace(Vec<String>),
    /// Print these lines, then run the agent loop for the agent.
    RunAgent { lines: Vec<String>, agent_id: String, role: String, backend: String },
    /// Nothing came yet: wait a moment and run the command again.
    WaitForMessages,
    /// Print the GhostOS configuration.
    ShowConfig,
    /// Set a GhostOS configuration key (see `GhostOsConfig::set_key`), save,
    /// and print `Updated <key>`.
    SetConfig { key: String, value: String },
    /// Probe the daemon for these agents and print `konnect_status_lines`.
    KonnectStatus { registered_ids: Vec<String> },
    /// Print the mapping history: as JSON, or as `text`.
    Replay { json: bool, history: Vec<IdMappingHistoryRow>, text: String },
    /// Write the mapping history (JSON or `text`) to `output`, or print it.
    Export { json: bool, output: Option<String>, history: Vec<IdMappingHistoryRow>, text: String },
    /// Run the benchmarks.
    Bench,
    /// Print where the API description is.
    ApiDocs,
}

/// Only the agents changed, if anything.
pub open spec fn others_kept_but_agents(o: Workspace, n: Workspace) -> bool {
    &&& n.messages() == o.messages()
    &&& n.tasks() == o.tasks()
    &&& n.task_history() == o.task_history()
    &&& n.mappings() == o.mappings()
    &&& n.mapping_history() == o.mapping_history()
}

/// Only the messages changed, if anything.
pub open spec fn others_kept_but_messages(o: Workspace, n: Workspace) -> bool {
    &&& n.agents() == o.agents()
    &&& n.tasks() == o.tasks()
    &&& n.task_history() == o.task_history()
    &&& n.mappings() == o.mappings()
    &&& n.mapping_history() == o.mapping_history()
}

/// Only the tasks and their history changed, if anything.
pub open spec fn others_kept_but_tasks(o: Workspace, n: Workspace) -> bool {
    &&& n.agents() == o.agents()
    &&& n.messages() == o.messages()
    &&& n.mappings() == o.mappings()
    &&& n.mapping_history() == o.mapping_history()
}

/// Nothing changed.
pub open spec fn unchanged(o: Workspace, n: Workspace) -> bool {
    &&& others_kept_but_agents(o, n)
    &&& n.agents() == o.agents()
}

/// `n` is `o` after an agent joined under `got`, asked for as `requested`.
pub open spec fn agent_joined(
    o: Workspace,
    n: Workspace,
    requested: Seq<char>,
    role: Seq<char>,
    backend: Seq<char>,
    now: Seq<char>,
    got: Seq<char>,
) -> bool {
    &&& exists|k: nat| first_free(o.agents(), requested, k) && got == candidate(requested, k)
    &&& exists|p: int|
        0 <= p <= o.agents().len() && n.agents() == o.agents().insert(p, n.agents()[p])
            && n.agents()[p].id@ == got && n.agents()[p].role@ == role
            && n.agents()[p].backend@ == backend && opt_view(n.agents()[p].joined_at) == Some(now)
    &&& others_kept_but_agents(o, n)
}

/// `n` is `o` after the agent `id` left.
pub open spec fn agent_left(o: Workspace, n: Workspace, id: Seq<char>) -> bool {
    &&& !has_agent(n.agents(), id)
    &&& has_agent(o.agents(), id) ==> exists|k: int|
        0 <= k < o.agents().len() && o.agents()[k].id@ == id && n.agents() == o.agents().remove(k)
    &&& !has_agent(o.agents(), id) ==> n.agents() == o.agents()
    &&& others_kept_but_agents(o, n)
}

/// `n` is `o` with one more message.
pub open spec fn message_sent(
    o: Workspace,
    n: Workspace,
    from: Seq<char>,
    to: Seq<char>,
    body: Seq<char>,
    now: Seq<char>,
) -> bool {
    &&& n.messages() == o.messages().push(n.messages().last())
    &&& is_new_message(n.messages().last(), next_message_id(o.messages()) as int, from, to, body, now)
    &&& others_kept_but_messages(o, n)
}

/// `n` is `o` after the messages for `id` were delivered.
pub open spec fn messages_delivered(o: Workspace, n: Workspace, id: Seq<char>) -> bool {
    &&& n.messages() == mark_read_before(o.messages(), id, o.messages().len() as int)
    &&& others_kept_but_messages(o, n)
}

/// `n` is `o` with one more task, and its `created` event.
pub open spec fn task_created(
    o: Workspace,
    n: Workspace,
    from: Seq<char>,
    to: Seq<char>,
    description: Seq<char>,
    now: Seq<char>,
) -> bool {
    &&& n.tasks() == o.tasks().push(n.tasks().last())
    &&& is_new_task(n.tasks().last(), next_task_id(o.tasks()) as int, from, to, description, now)
    &&& history_appended(
        o.task_history(),
        n.task_history(),
        next_task_id(o.tasks()) as int,
        "created"@,
        from,
        now,
    )
    &&& others_kept_but_tasks(o, n)
}

/// `n` is `o` after task `id` moved to `status`, with the event by `actor`.
pub open spec fn task_moved(
    o: Workspace,
    n: Workspace,
    id: int,
    status: Seq<char>,
    assignee: Option<Seq<char>>,
    result: Option<Seq<char>>,
    actor: Seq<char>,
    now: Seq<char>,
) -> bool {
    &&& tasks_after_update(o.tasks(), n.tasks(), id, status, assignee, result, now)
    &&& history_appended(o.task_history(), n.task_history(), id, status, actor, now)
    &&& others_kept_but_tasks(o, n)
}

/// The lines an action prints first.
pub open spec fn printed(a: CliAction) -> Option<Seq<Seq<char>>> {
    match a {
        CliAction::Print(l) => Some(strings_view(l@)),
        CliAction::InitWorkspace(l) => Some(strings_view(l@)),
        CliAction::RunAgent { lines, .. } => Some(strings_view(lines@)),
        _ => None,
    }
}

/// Runs a command on the workspace (`now` is the current time, `version`
/// the program's) and says what is left for the program to do.
pub fn run(ws: &mut Workspace, command: Option<Commands>, now: &str, version: &str) -> (r: CliAction)
    requires
        old(ws).wf(),
        (command matches Some(Commands::Join { .. })) ==> old(ws).agents().len() < usize::MAX,
        (command matches Some(Commands::Send { .. })) ==> old(ws).message_room(),
        (command matches Some(Commands::TaskCreate { .. })) ==> old(ws).task_room()
            && old(ws).history_room(),
        (command matches Some(Commands::TaskAck { .. }) || command matches Some(
            Commands::TaskComplete { .. },
        ) || command matches Some(Commands::TaskRequeue { .. })) ==> old(ws).history_room(),
    ensures
        final(ws).wf(),
        match command {
            None => printed(r) == Some(Seq::<Seq<char>>::empty()) && unchanged(*old(ws), *final(ws)),
            Some(Commands::Version) => printed(r) == Some(seq![version@]) && unchanged(*old(ws), *final(ws)),
            Some(Commands::Init) => (r matches CliAction::InitWorkspace(l) && strings_view(l@)
                == seq!["GhostTeam workspace initialized"@]) && unchanged(*old(ws), *final(ws)),
            Some(Commands::Join { id, role, backend }) => r matches CliAction::RunAgent {
                lines,
                agent_id,
                role: r2,
                backend: b2,
            } && strings_view(lines@) == seq!["Joined agent "@ + agent_id@] && r2@ == role@
                && b2@ == backend@ && agent_joined(*old(ws), *final(ws), id@, role@, backend@, now@, agent_id@),
            Some(Commands::Leave { id }) => printed(r) == Some(seq!["Left agent "@ + id@])
                && agent_left(*old(ws), *final(ws), id@),
            Some(Commands::Agents) => printed(r) == Some(agent_row_lines(old(ws).agents()))
                && unchanged(*old(ws), *final(ws)),
            Some(Commands::Send { from, to, message }) => printed(r) == Some(
                seq!["Message sent from "@ + from@ + " to "@ + to@],
            ) && message_sent(*old(ws), *final(ws), from@, to@, message@, now@),
            Some(Commands::Receive { id, wait }) => if wait && unread_of(old(ws).messages(), id@).len() == 0 {
                r is WaitForMessages && unchanged(*old(ws), *final(ws))
            } else {
                printed(r) == Some(message_row_lines(unread_of(old(ws).messages(), id@)))
                    && messages_delivered(*old(ws), *final(ws), id@)
            },
            Some(Commands::TaskCreate { from, to, description }) => printed(r) == Some(
                seq!["Task created: "@ + decimal_int(next_task_id(old(ws).tasks()) as int)],
            ) && task_created(*old(ws), *final(ws), from@, to@, description@, now@),
            Some(Commands::TaskAck { id, worker }) => printed(r) == Some(
                seq!["Task "@ + decimal_int(id as int) + " acknowledged by "@ + worker@],
            ) && task_moved(*old(ws), *final(ws), id as int, "acked"@, Some(worker@), None, worker@, now@),
            Some(Commands::TaskComplete { id, worker, result }) => printed(r) == Some(
                seq!["Task "@ + decimal_int(id as int) + " completed by "@ + worker@],
            ) && task_moved(
                *old(ws),
                *final(ws),
                id as int,
                "completed"@,
                Some(worker@),
                Some(result@),
                worker@,
                now@,
            ),
            Some(Commands::TaskRequeue { id }) => printed(r) == Some(
                seq!["Task "@ + decimal_int(id as int) + " requeued"@],
            ) && task_moved(*old(ws), *final(ws), id as int, "requeued"@, None, None, "system"@, now@),
            Some(Commands::TaskList) => printed(r) == Some(task_row_lines(old(ws).tasks().reverse()))
                && unchanged(*old(ws), *final(ws)),
            Some(Commands::Config) => r is ShowConfig && unchanged(*old(ws), *final(ws)),
            Some(Commands::SetConfig { key, value }) => (r matches CliAction::SetConfig { key: k, value: v }
                && k == key && v == value) && unchanged(*old(ws), *final(ws)),
            Some(Commands::KonnectStatus) => (r matches CliAction::KonnectStatus { registered_ids }
                && strings_view(registered_ids@) == agent_id_list(old(ws).agents())) && unchanged(
                *old(ws),
                *final(ws),
            ),
            Some(Commands::KonnectMappings) => printed(r) == Some(
                if old(ws).mappings().len() == 0 {
                    seq!["No KasperKonnect ID mappings recorded yet"@]
                } else {
                    mapping_row_lines(old(ws).mappings())
                },
            ) && unchanged(*old(ws), *final(ws)),
            Some(Commands::KonnectReplay { json }) => (r matches CliAction::Replay { json: j, history, text }
                && j == json && history@ == old(ws).mapping_history() && text@ == mapping_history_text(
                old(ws).mapping_history(),
            )) && unchanged(*old(ws), *final(ws)),
            Some(Commands::KonnectExport { json, output }) => (r matches CliAction::Export {
                json: j,
                output: o,
                history,
                text,
            } && j == json && o == output && history@ == old(ws).mapping_history() && text@
                == mapping_history_text(old(ws).mapping_history())) && unchanged(*old(ws), *final(ws)),
            Some(Commands::Bench) => r is Bench && unchanged(*old(ws), *final(ws)),
            Some(Commands::ApiDocs) => r is ApiDocs && unchanged(*old(ws), *final(ws)),
        },
{
    let command = match command {
        Some(c) => c,
        None => {
            return CliAction::Print(Vec::new());
        },
    };
    match command {
        Commands::Version => {
            let mut l: Vec<String> = Vec::new();
            l.push(owned(version));
            assert(strings_view(l@) =~= seq![version@]);
            CliAction::Print(l)
        },
        Commands::Init => {
            let mut l: Vec<String> = Vec::new();
            l.push(owned("GhostTeam workspace initialized"));
            assert(strings_view(l@) =~= seq!["GhostTeam workspace initialized"@]);
            CliAction::InitWorkspace(l)
        },
        Commands::Join { id, role, backend } => {
            let agent_id = crate::agent::join_agent(ws, id.as_str(), role.as_str(), backend.as_str(), now);
            let mut l: Vec<String> = Vec::new();
            l.push(concat2("Joined agent ", agent_id.as_str()));
            assert(strings_view(l@) =~= seq!["Joined agent "@ + agent_id@]);
            CliAction::RunAgent { lines: l, agent_id, role, backend }
        },
        Commands::Leave { id } => {
            crate::agent::leave_agent(ws, id.as_str());
            let mut l: Vec<String> = Vec::new();
            l.push(concat2("Left agent ", id.as_str()));
            assert(strings_view(l@) =~= seq!["Left agent "@ + id@]);
            CliAction::Print(l)
        },
        Commands::Agents => {
            let rows = crate::agent::list_agents(ws);
            CliAction::Print(agent_lines(&rows))
        },
        Commands::Send { from, to, message } => {
            let _ = crate::agent::send_message(ws, from.as_str(), to.as_str(), message.as_str(), now);
            let mut l: Vec<String> = Vec::new();
            let head = concat3("Message sent from ", from.as_str(), " to ");
            l.push(concat2(head.as_str(), to.as_str()));
            assert(strings_view(l@) =~= seq!["Message sent from "@ + from@ + " to "@ + to@]);
            CliAction::Print(l)
        },
        Commands::Receive { id, wait } => {
            let pending = ws.unread_messages(id.as_str());
            if wait && pending.len() == 0 {
                return CliAction::WaitForMessages;
            }
            let rows = crate::agent::receive_messages(ws, id.as_str());
            CliAction::Print(message_lines(&rows))
        },
        Commands::TaskCreate { from, to, description } => {
            let id = crate::tasks::create_task(ws, from.as_str(), to.as_str(), description.as_str(), now);
            let n = format_i64(id);
            let mut l: Vec<String> = Vec::new();
            l.push(concat2("Task created: ", n.as_str()));
            assert(strings_view(l@) =~= seq!["Task created: "@ + decimal_int(id as int)]);
            CliAction::Print(l)
        },
        Commands::TaskAck { id, worker } => {
            let _ = crate::tasks::ack_task(ws, id, worker.as_str(), now);
            let n = format_i64(id);
            let mut l: Vec<String> = Vec::new();
            let head = concat3("Task ", n.as_str(), " acknowledged by ");
            l.push(concat2(head.as_str(), worker.as_str()));
            assert(strings_view(l@) =~= seq!["Task "@ + decimal_int(id as int) + " acknowledged by "@ + worker@]);
            CliAction::Print(l)
        },
        Commands::TaskComplete { id, worker, result } => {
            let _ = crate::tasks::complete_task(ws, id, worker.as_str(), result.as_str(), now);
            let n = format_i64(id);
            let mut l: Vec<String> = Vec::new();
            let head = concat3("Task ", n.as_str(), " completed by ");
            l.push(concat2(head.as_str(), worker.as_str()));
            assert(strings_view(l@) =~= seq!["Task "@ + decimal_int(id as int) + " completed by "@ + worker@]);
            CliAction::Print(l)
        },
        Commands::TaskRequeue { id } => {
            let _ = crate::tasks::requeue_task(ws, id, now);
            let n = format_i64(id);
            let mut l: Vec<String> = Vec::new();
            l.push(concat3("Task ", n.as_str(), " requeued"));
            assert(strings_view(l@) =~= seq!["Task "@ + decimal_int(id as int) + " requeued"@]);
            CliAction::Print(l)
        },
        Commands::TaskList => {
            let (_rows, lines) = crate::tasks::list_tasks(ws);
            CliAction::Print(lines)
        },
        Commands::Config => CliAction::ShowConfig,
        Commands::SetConfig { key, value } => CliAction::SetConfig { key, value },
        Commands::KonnectStatus => {
            let rows = crate::agent::list_agents(ws);
            let mut ids: Vec<String> = Vec::new();
            let mut i: usize = 0;
            while i < rows.len()
                invariant
                    i <= rows@.len(),
                    strings_view(ids@) == agent_id_list(rows@.take(i as int)),
                decreases rows.len() - i,
            {
                let id = owned(rows[i].id.as_str());
                let ghost before = strings_view(ids@);
                ids.push(id);
                assert(strings_view(ids@) =~= before.push(id@));
                assert(agent_id_list(rows@.take(i + 1)) =~= agent_id_list(rows@.take(i as int)).push(
                    rows@[i as int].id@,
                ));
                i = i + 1;
            }
            assert(rows@.take(rows@.len() as int) =~= rows@);
            CliAction::KonnectStatus { registered_ids: ids }
        },
        Commands::KonnectMappings => {
            let rows = crate::db::list_id_mappings(ws);
            if rows.len() == 0 {
                let mut l: Vec<String> = Vec::new();
                l.push(owned("No KasperKonnect ID mappings recorded yet"));
                assert(strings_view(l@) =~= seq!["No KasperKonnect ID mappings recorded yet"@]);
                CliAction::Print(l)
            } else {
                CliAction::Print(mapping_lines(&rows))
            }
        },
        Commands::KonnectReplay { json } => {
            let history = crate::db::list_id_mapping_history(ws);
            let text = render_mapping_history(&history);
            CliAction::Replay { json, history, text }
        },
        Commands::KonnectExport { json, output } => {
            let history = crate::db::list_id_mapping_history(ws);
            let text = render_mapping_history(&history);
            CliAction::Export { json, output, history, text }
        },
        Commands::Bench => CliAction::Bench,
        Commands::ApiDocs => CliAction::ApiDocs,
    }
}

} // verus!
