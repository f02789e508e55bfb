use ghostteam::telegram::reply::{
    agent_status_message, agents_message, describe_probe, format_agents, friendly_api_error,
    handoff_description, help_message, logs_message, status_message, task_created_message,
    tasks_message, task_create_request, created_task_id, AgentRecord, ApiEnvelope, ApiError, HttpStatus, MessageRecord, TaskRecord,
    TelegramError, TelegramResponse, TELEGRAM_TASK_CREATOR,
};
use ghostteam::telegram::{
    chunk_message, command_for_update, normalize_command, parse_command, poll_query, BridgeCommand,
    BridgeConfig, websocket_url, TelegramChat, TelegramMessage, TelegramUpdate, TELEGRAM_MESSAGE_CHUNK_LIMIT,
};

const API: &str = "http://127.0.0.1:8080";

fn agent(id: &str, role: &str, backend: &str, joined_at: Option<&str>) -> AgentRecord {
    AgentRecord {
        id: id.to_string(),
        role: role.to_string(),
        backend: backend.to_string(),
        joined_at: joined_at.map(str::to_string),
    }
}

fn task(id: i64, assignee: &str, description: &str, status: &str) -> TaskRecord {
    TaskRecord {
        id,
        creator: "manager".to_string(),
        assignee: Some(assignee.to_string()),
        description: description.to_string(),
        status: status.to_string(),
        result: None,
        created_at: Some("2026-06-29T00:02:00Z".to_string()),
        updated_at: Some("2026-06-29T00:02:00Z".to_string()),
    }
}

fn test_bridge_config() -> BridgeConfig {
    BridgeConfig::for_test("test-token", "http://127.0.0.1:9999".to_string(), API.to_string(), Some("test-key".to_string()))
}

#[test]
fn status_command_reports_api_summary() {
    assert!(matches!(parse_command("/status"), BridgeCommand::Status));
    let config = test_bridge_config();
    let agents = Ok(vec![
        agent("manager", "manager", "ollama", Some("2026-06-29T00:00:00Z")),
        agent("worker-1", "worker", "ghostos", Some("2026-06-29T00:01:00Z")),
    ]);
    let tasks = Ok(vec![task(7, "worker-1", "Draft the status report", "created")]);
    let text = status_message(&config.api_base_url, "2026-06-29T00:10:00Z", &agents, &tasks);
    assert!(text.contains("GhostTeam status"));
    assert!(text.contains("API base URL:"));
    assert!(text.contains("Agents: reachable"));
    assert!(text.contains("Tasks: reachable"));
    assert_eq!(
        text,
        "GhostTeam status\nAPI base URL: http://127.0.0.1:8080\nTimestamp: 2026-06-29T00:10:00Z\nAgents: reachable (2 items)\nTasks: reachable (1 items)\nMessages: summary is not exposed by the current API shape\nActive agents: manager, worker-1"
    );
}

#[test]
fn tasks_command_lists_registered_tasks() {
    assert!(matches!(parse_command("/tasks"), BridgeCommand::Tasks));
    let tasks = Ok(vec![
        task(7, "worker-1", "Draft the status report", "created"),
        task(8, "worker-2", "Review the handoff", "acked"),
    ]);
    let text = tasks_message(API, &tasks);
    assert!(text.contains("GhostTeam tasks (2)"));
    assert!(text.contains("#7"));
    assert!(text.contains("Draft the status report"));
    assert!(text.contains("#8"));
}

#[test]
fn assign_and_handoff_create_tasks() {
    let first = parse_command("/assign kodii \"fix dashboard bug\"");
    let second = parse_command("/handoff axiom \"review this plan\"");
    match first {
        BridgeCommand::Assign { agent, description } => {
            assert_eq!(TELEGRAM_TASK_CREATOR, "telegram");
            assert_eq!(agent, "kodii");
            assert_eq!(description, "fix dashboard bug");
            let reply = task_created_message(false, &agent, &Ok(41));
            assert!(reply.contains("Task assigned"));
            assert!(reply.contains("kodii"));
        }
        other => panic!("unexpected command {other:?}"),
    }
    match second {
        BridgeCommand::Handoff { agent, description } => {
            assert_eq!(agent, "axiom");
            let created = handoff_description(&description);
            assert!(created.contains("Handoff via Telegram"));
            assert!(created.contains("review this plan"));
            let reply = task_created_message(true, &agent, &Ok(42));
            assert!(reply.contains("Task handoff queued"));
            assert!(reply.contains("axiom"));
        }
        other => panic!("unexpected command {other:?}"),
    }
}

#[test]
fn logs_command_streams_recent_lines() {
    match parse_command("/logs omari") {
        BridgeCommand::Logs(agent) => {
            let lines = Ok(vec!["omari: boot complete".to_string(), "omari: awaiting work".to_string()]);
            let text = logs_message(&agent, &lines);
            assert!(text.contains("GhostTeam logs for omari"));
            assert!(text.contains("boot complete"));
            assert!(text.contains("awaiting work"));
        }
        other => panic!("unexpected command {other:?}"),
    }
}

#[test]
fn help_command_lists_supported_commands() {
    assert!(matches!(parse_command("/help"), BridgeCommand::Help));
    let text = help_message();
    assert!(text.contains("/help"));
    assert!(text.contains("/status <agent>"));
    assert!(text.contains("/handoff <agent>"));
}

#[test]
fn agent_status_command_reports_agent_details() {
    let id = match parse_command("/status omari") {
        BridgeCommand::AgentStatus(a) => a,
        other => panic!("unexpected command {other:?}"),
    };
    let detail = Ok(agent("omari", "overseer", "ollama", Some("2026-06-29T00:05:00Z")));
    let messages = Ok(vec![MessageRecord {
        id: 18,
        sender: "manager".to_string(),
        recipient: "omari".to_string(),
        body: "Please check the dashboard bug".to_string(),
        created_at: Some("2026-06-29T00:09:00Z".to_string()),
        read: 0,
    }]);
    let tasks = Ok(vec![task(41, "omari", "Fix dashboard bug", "acked")]);
    let text = agent_status_message(&id, &detail, &messages, &tasks);
    assert!(text.contains("GhostTeam agent status for omari"));
    assert!(text.contains("Role: overseer"));
    assert!(text.contains("Unread messages: 1"));
    assert!(text.contains("Assigned tasks: 1"));
    assert!(text.contains("Please check the dashboard bug"));
}

#[test]
fn commands_are_normalized_and_arguments_checked() {
    assert_eq!(normalize_command("/status@ghostbot now"), "/status");
    assert_eq!(normalize_command("  /agents  "), "/agents");
    assert_eq!(normalize_command(""), "");
    assert!(matches!(parse_command("/agents@ghostbot"), BridgeCommand::Agents));
    assert!(matches!(parse_command("/assign kodii"), BridgeCommand::Usage(ref u) if u == "Usage: /assign <agent> \"<task>\""));
    assert!(matches!(parse_command("/logs"), BridgeCommand::Usage(ref u) if u == "Usage: /logs <agent>"));
    assert!(matches!(parse_command("hello"), BridgeCommand::Unknown));
}

#[test]
fn chunks_rebuild_the_text_and_fit_the_limit() {
    assert_eq!(chunk_message("short", TELEGRAM_MESSAGE_CHUNK_LIMIT), vec!["short".to_string()]);
    let text = "ab€cd€e";
    let chunks = chunk_message(text, 4);
    assert_eq!(chunks.concat(), text);
    assert!(chunks.iter().all(|c| c.len() <= 4 && !c.is_empty()));
    assert_eq!(chunks, vec!["ab".to_string(), "€c".to_string(), "d€".to_string(), "e".to_string()]);
    let long = "x".repeat(7001);
    let parts = chunk_message(&long, TELEGRAM_MESSAGE_CHUNK_LIMIT);
    assert_eq!(parts.len(), 3);
    assert_eq!(parts[0].len(), 3500);
    assert_eq!(parts[2], "x");
}

#[test]
fn http_status_text_and_classification() {
    assert!(HttpStatus::from_u16(99).is_none());
    assert!(HttpStatus::from_u16(1000).is_none());
    let nf = HttpStatus::from_u16(404).expect("status");
    assert_eq!(nf.code(), 404);
    assert_eq!(nf.text(), "404 Not Found");
    assert!(!nf.is_success());
    assert!(HttpStatus::from_u16(204).expect("status").is_success());
    let odd = HttpStatus::from_u16(599).expect("status");
    assert!(odd.text().starts_with("599 "));
}

#[test]
fn api_errors_read_as_the_bridge_reports_them() {
    let status = HttpStatus::from_u16(500).expect("status");
    let http = ApiError::Http { status, body: "boom".to_string() };
    assert_eq!(http.message(), "GhostTeam API returned HTTP 500 Internal Server Error: boom");
    assert_eq!(friendly_api_error(&http), "The API returned HTTP 500 Internal Server Error: boom");
    assert_eq!(describe_probe("Agents", Err(&http)), "Agents: reachable (HTTP 500 Internal Server Error)");
    assert_eq!(describe_probe("Tasks", Ok(3)), "Tasks: reachable (3 items)");
    let down = ApiError::Transport("refused".to_string());
    assert_eq!(describe_probe("Agents", Err(&down)), "Agents: unreachable (refused)");
    assert_eq!(friendly_api_error(&ApiError::Unauthorized), "The API key was rejected. Check GHOSTTEAM_API_KEY.");
    let empty = ApiError::Http { status: HttpStatus::from_u16(503).expect("status"), body: String::new() };
    assert_eq!(friendly_api_error(&empty), "The API returned HTTP 503 Service Unavailable.");
    let te = TelegramError::Api("bad token".to_string());
    assert_eq!(te.message(), "Telegram API error: bad token");
}

#[test]
fn envelopes_give_their_data_or_say_why_not() {
    let ok: ApiEnvelope<i64> = ApiEnvelope { ok: true, data: Some(5), error: None };
    assert_eq!(ok.into_data("agents").expect("data"), 5);
    let missing: ApiEnvelope<i64> = ApiEnvelope { ok: true, data: None, error: None };
    assert!(matches!(missing.into_data("agents"), Err(ApiError::Malformed(ref m)) if m == "agents response was missing a data field"));
    let failed: ApiEnvelope<i64> = ApiEnvelope { ok: false, data: None, error: None };
    assert!(matches!(failed.into_data("tasks"), Err(ApiError::Malformed(ref m)) if m == "tasks request failed"));
    let refused: TelegramResponse<i64> = TelegramResponse { ok: false, result: None, description: Some("Unauthorized".to_string()) };
    assert!(matches!(refused.into_result(), Err(TelegramError::Api(ref m)) if m == "Unauthorized"));
    let empty: TelegramResponse<i64> = TelegramResponse { ok: true, result: None, description: None };
    assert!(matches!(empty.into_result(), Err(TelegramError::Malformed(ref m)) if m == "Telegram response missing result"));
}

#[test]
fn agent_list_formats() {
    assert_eq!(format_agents(&[]), "GhostTeam agents\nNo agents are currently registered.");
    let text = format_agents(&[agent("a", "r", "b", Some("t")), agent("c", "s", "d", None)]);
    assert_eq!(
        text,
        "GhostTeam agents (2)\n- a | role=r | backend=b | joined_at=t\n- c | role=s | backend=d\nLast heartbeat/status is not exposed by the current API."
    );
    let err = agents_message(API, &Err(ApiError::Unauthorized));
    assert_eq!(
        err,
        "GhostTeam agents\nUnable to load registered agents from http://127.0.0.1:8080.\nThe API key was rejected. Check GHOSTTEAM_API_KEY."
    );
}

#[test]
fn updates_become_commands_for_their_chat() {
    let update = TelegramUpdate {
        update_id: 5,
        message: Some(TelegramMessage { message_id: 1, chat: TelegramChat { id: 42 }, text: Some("  /tasks  ".to_string()) }),
    };
    match command_for_update(&update) {
        Some((chat, BridgeCommand::Tasks)) => assert_eq!(chat, 42),
        other => panic!("unexpected {other:?}"),
    }
    let silent = TelegramUpdate {
        update_id: 6,
        message: Some(TelegramMessage { message_id: 2, chat: TelegramChat { id: 42 }, text: None }),
    };
    assert!(command_for_update(&silent).is_none());
    assert!(command_for_update(&TelegramUpdate { update_id: 7, message: None }).is_none());
    let q = poll_query(8);
    assert_eq!(q, vec![("timeout".to_string(), "25".to_string()), ("offset".to_string(), "8".to_string())]);
}

#[test]
fn bridge_config_needs_a_token_and_trims_values() {
    let missing = BridgeConfig::from_values(None, None, None, None);
    assert_eq!(missing.unwrap_err(), "TELEGRAM_BOT_TOKEN is required for the Telegram bridge");
    let config = BridgeConfig::from_values(
        Some("tok".to_string()),
        Some("http://api:8080//".to_string()),
        Some("  ".to_string()),
        None,
    )
    .expect("config");
    assert_eq!(config.api_base_url, "http://api:8080");
    assert!(config.api_key.is_none());
    assert_eq!(config.log_level, "info");
    assert_eq!(config.telegram_method_url("getMe"), "https://api.telegram.org/bottok/getMe");
    assert_eq!(config.api_url("/agents"), "http://api:8080/agents");
    let keyed = BridgeConfig::from_values(Some("t".to_string()), None, Some(" k ".to_string()), Some("debug".to_string())).expect("config");
    assert_eq!(keyed.api_key.as_deref(), Some("k"));
    assert_eq!(keyed.api_base_url, "http://127.0.0.1:8080");
    let test_config = test_bridge_config();
    assert_eq!(test_config.telegram_method_url("sendMessage"), "http://127.0.0.1:9999/bottest-token/sendMessage");
}

#[test]
fn assign_and_handoff_requests_name_the_bridge_and_agent() {
    let assign = task_create_request(&parse_command("/assign kodii \"fix dashboard bug\"")).expect("request");
    assert_eq!((assign.from.as_str(), assign.to.as_str(), assign.description.as_str()), ("telegram", "kodii", "fix dashboard bug"));
    let handoff = task_create_request(&parse_command("/handoff axiom \"review this plan\"")).expect("request");
    assert_eq!(handoff.to, "axiom");
    assert_eq!(handoff.description, "Handoff via Telegram: review this plan");
    assert!(task_create_request(&parse_command("/tasks")).is_none());
    assert_eq!(created_task_id("{\"ok\":true,\"id\":41,\"data\":{\"id\":41}}").expect("id"), 41);
    assert_eq!(created_task_id("{\"ok\":true,\"data\":{\"task\":{\"id\":7}}}").expect("id"), 7);
    assert!(matches!(created_task_id("{\"ok\":true}"), Err(ApiError::Malformed(ref m)) if m == "task response was missing an id"));
    assert!(matches!(created_task_id("nope"), Err(ApiError::Malformed(_))));
    assert_eq!(created_task_id("{\"ok\":true,\"data\":{\"id\":9}}").expect("id"), 9);
    assert_eq!(created_task_id("{\"id\":\"x\",\"data\":{\"task\":{\"id\":5},\"id\":9}}").expect("id"), 5);
}

#[test]
fn log_stream_address_is_the_websocket_form() {
    let config = BridgeConfig::for_test("t", "http://tg".to_string(), "http://127.0.0.1:8080/".to_string(), None);
    assert_eq!(config.logs_stream_url("omari"), "ws://127.0.0.1:8080/logs/omari/stream");
    assert_eq!(websocket_url("https://api.example"), "wss://api.example");
    assert_eq!(websocket_url("ftp://x"), "ftp://x");
}
