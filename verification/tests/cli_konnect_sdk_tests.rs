use ghostteam::cli::{konnect_status_lines, render_mapping_history, run, set_config, CliAction, Commands};
use ghostteam::model::ghostos::GhostOsConfig;
use ghostteam::db::{init_workspace, record_id_mapping};
use ghostteam::konnect::{
    capabilities_for, first_line, message_metadata, register_request, remote_message_id,
    remote_task_id, runtime_status, Environment, HealthResponse,
};
use ghostteam::sdk::{
    agent_path, check_lookup_status, check_status, messages_path, normalize_base_url, task_path,
    GhostTeamClient, GhostTeamError,
};
use ghostteam::telegram::reply::HttpStatus;

const NOW: &str = "2026-06-29 00:00:00";

fn env(id: &str) -> Environment {
    Environment {
        id: id.to_string(),
        display_name: format!("GhostTeam {id}"),
        kind: "worker".to_string(),
        version: None,
        pid: None,
        endpoint: None,
        capabilities: Vec::new(),
        status: "online".to_string(),
        registered_at: NOW.to_string(),
        last_seen_at: NOW.to_string(),
    }
}

fn printed(action: CliAction) -> Vec<String> {
    match action {
        CliAction::Print(lines) => lines,
        other => panic!("unexpected action {other:?}"),
    }
}

#[test]
fn cli_commands_print_what_they_did() {
    let mut ws = init_workspace();
    match run(&mut ws, Some(Commands::Join { id: "worker".into(), role: "worker".into(), backend: "ollama".into() }), NOW, "0.1.0") {
        CliAction::RunAgent { lines, agent_id, .. } => {
            assert_eq!(agent_id, "worker");
            assert_eq!(lines, vec!["Joined agent worker".to_string()]);
        }
        other => panic!("unexpected action {other:?}"),
    }
    assert_eq!(printed(run(&mut ws, Some(Commands::Version), NOW, "0.1.0")), vec!["0.1.0".to_string()]);
    assert_eq!(printed(run(&mut ws, Some(Commands::Agents), NOW, "0.1.0")), vec![format!("worker\tworker\tollama\t{NOW}")]);
    assert_eq!(
        printed(run(&mut ws, Some(Commands::Send { from: "m".into(), to: "worker".into(), message: "hi".into() }), NOW, "0.1.0")),
        vec!["Message sent from m to worker".to_string()]
    );
    assert_eq!(
        printed(run(&mut ws, Some(Commands::Receive { id: "worker".into(), wait: false }), NOW, "0.1.0")),
        vec![format!("1\tm\tworker\thi\t{NOW}\t0")]
    );
    assert!(matches!(run(&mut ws, Some(Commands::Receive { id: "worker".into(), wait: true }), NOW, "0.1.0"), CliAction::WaitForMessages));
    assert_eq!(
        printed(run(&mut ws, Some(Commands::TaskCreate { from: "m".into(), to: "worker".into(), description: "d".into() }), NOW, "0.1.0")),
        vec!["Task created: 1".to_string()]
    );
    assert_eq!(
        printed(run(&mut ws, Some(Commands::TaskAck { id: 1, worker: "worker".into() }), NOW, "0.1.0")),
        vec!["Task 1 acknowledged by worker".to_string()]
    );
    assert_eq!(
        printed(run(&mut ws, Some(Commands::TaskComplete { id: 1, worker: "worker".into(), result: "r".into() }), NOW, "0.1.0")),
        vec!["Task 1 completed by worker".to_string()]
    );
    assert_eq!(printed(run(&mut ws, Some(Commands::TaskRequeue { id: 1 }), NOW, "0.1.0")), vec!["Task 1 requeued".to_string()]);
    assert_eq!(
        printed(run(&mut ws, Some(Commands::TaskList), NOW, "0.1.0")),
        vec![format!("1\tm\tworker\td\trequeued\tr\t{NOW}\t{NOW}")]
    );
    assert_eq!(printed(run(&mut ws, Some(Commands::Leave { id: "worker".into() }), NOW, "0.1.0")), vec!["Left agent worker".to_string()]);
    assert_eq!(printed(run(&mut ws, Some(Commands::KonnectMappings), NOW, "0.1.0")), vec!["No KasperKonnect ID mappings recorded yet".to_string()]);
    assert!(printed(run(&mut ws, None, NOW, "0.1.0")).is_empty());
}

#[test]
fn mapping_history_renders_tab_separated_lines() {
    let mut ws = init_workspace();
    assert_eq!(render_mapping_history(&Vec::new()), "No KasperKonnect mapping history recorded yet");
    record_id_mapping(&mut ws, "task", "1", "ghostteam-task-1", Some("kk"), NOW);
    match run(&mut ws, Some(Commands::KonnectReplay { json: false }), NOW, "0.1.0") {
        CliAction::Replay { json, history, text } => {
            assert!(!json);
            assert_eq!(history.len(), 1);
            assert_eq!(text, format!("{NOW}\ttask\t1\tghostteam-task-1\tkk\tupsert\n"));
        }
        other => panic!("unexpected action {other:?}"),
    }
}

#[test]
fn konnect_status_lines_cover_each_case() {
    assert_eq!(
        konnect_status_lines(&None),
        vec![
            "KasperKonnect: not configured".to_string(),
            "Set GHOSTTEAM_KASPERKONNECT_URL or start the daemon locally to enable mirroring".to_string(),
        ]
    );
    let down = runtime_status("http://127.0.0.1:4077", None, vec![env("x")], &vec!["x".to_string()]);
    assert!(!down.reachable);
    assert_eq!(konnect_status_lines(&Some(down))[0], "KasperKonnect: unreachable\tbase_url=http://127.0.0.1:4077");
    let health = HealthResponse {
        status: "ok".into(),
        service: "kasperkonnect".into(),
        version: "1.0".into(),
        bind: "127.0.0.1:4077".into(),
    };
    let up = runtime_status("http://k", Some(health), vec![env("a"), env("b")], &vec!["b".to_string()]);
    assert_eq!(up.registered.len(), 1);
    let lines = konnect_status_lines(&Some(up));
    assert_eq!(
        lines,
        vec![
            "KasperKonnect: reachable\tservice=kasperkonnect\tversion=1.0\tbind=127.0.0.1:4077".to_string(),
            "Base URL: http://k".to_string(),
            "Daemon environments: 2".to_string(),
            "GhostTeam registrations: 1".to_string(),
            "GhostTeam registration visibility:".to_string(),
            "b\tGhostTeam b\tworker\tonline".to_string(),
        ]
    );
}

#[test]
fn konnect_ids_and_registration() {
    assert_eq!(remote_message_id(12), "ghostteam-msg-12");
    assert_eq!(remote_task_id(-3), "ghostteam-task--3");
    assert_ne!(remote_message_id(1), remote_task_id(1));
    assert_eq!(first_line("first\nsecond"), "first");
    assert_eq!(message_metadata(NOW).priority, "normal");
    let req = register_request("worker", "worker", "ollama", "0.1.0", 7);
    assert_eq!(req.display_name, "GhostTeam worker");
    assert_eq!(req.endpoint.as_deref(), Some("ghostteam://worker"));
    assert_eq!(req.capabilities, capabilities_for("worker", "ollama"));
    assert_eq!(
        capabilities_for("worker", "ollama"),
        vec!["workspace.task", "runtime.context", "agent.role.worker", "agent.backend.ollama"]
    );
}

#[test]
fn sdk_client_addresses_and_keys() {
    assert_eq!(normalize_base_url("http://h:1///".to_string()), "http://h:1");
    let once = normalize_base_url("http://h:1//".to_string());
    assert_eq!(normalize_base_url(once.clone()), once);
    let client = GhostTeamClient::new("http://h:1/".to_string()).expect("client");
    assert_eq!(client.base_url(), "http://h:1");
    assert_eq!(client.endpoint("//agents"), "http://h:1/agents");
    let mut keyed = client.with_api_key("k".to_string());
    assert_eq!(keyed.api_key().as_deref(), Some("k"));
    keyed.clear_api_key();
    assert!(keyed.api_key().is_none());
    keyed.set_api_key("k2".to_string());
    assert_eq!(keyed.api_key().as_deref(), Some("k2"));
    assert_eq!(agent_path("w"), "/agents/w");
    assert_eq!(task_path(9), "/tasks/9");
    assert_eq!(messages_path("w"), "/messages/w");
}

#[test]
fn sdk_status_decides_the_outcome() {
    let ok = HttpStatus::from_u16(200).expect("status");
    assert_eq!(check_status(&ok, "{}".to_string()).expect("body"), "{}");
    let bad = HttpStatus::from_u16(500).expect("status");
    let err = check_status(&bad, "oops".to_string()).unwrap_err();
    assert_eq!(err.message(), "api error 500 Internal Server Error: oops");
    let nf = HttpStatus::from_u16(404).expect("status");
    assert!(check_lookup_status(&nf, String::new()).expect("lookup").is_none());
    assert_eq!(check_lookup_status(&ok, "x".to_string()).expect("lookup").as_deref(), Some("x"));
    assert!(matches!(check_lookup_status(&bad, String::new()), Err(GhostTeamError::Api { .. })));
}

#[test]
fn set_config_changes_one_known_key_or_refuses() {
    let (config, lines) = set_config(GhostOsConfig::default(), "ghostos_model", "ghost-2").expect("known key");
    assert_eq!(config.ghostos_model, "ghost-2");
    assert_eq!(config.ghostos_endpoint, "http://localhost:9000/infer");
    assert_eq!(lines, vec!["Updated ghostos_model".to_string()]);
    let (config, _) = set_config(config, "ghostos_endpoint", "http://g:1").expect("known key");
    assert_eq!(config.ghostos_endpoint, "http://g:1");
    assert_eq!(config.ghostos_model, "ghost-2");
    assert_eq!(
        set_config(GhostOsConfig::default(), "temperature", "0.2").unwrap_err(),
        "unknown config key: temperature (supported: ghostos_endpoint, ghostos_model)"
    );
}

#[test]
fn mappings_keep_the_latest_recording_per_entity() {
    let mut ws = init_workspace();
    record_id_mapping(&mut ws, "task", "9", "a", Some("s1"), NOW);
    record_id_mapping(&mut ws, "task", "10", "b", None, NOW);
    record_id_mapping(&mut ws, "task", "9", "c", None, NOW);
    record_id_mapping(&mut ws, "message", "1", "d", Some("s2"), NOW);
    let rows: Vec<(String, String, String, Option<String>)> = ghostteam::db::list_id_mappings(&ws)
        .into_iter()
        .map(|m| (m.entity_kind, m.local_id, m.remote_id, m.remote_source))
        .collect();
    assert_eq!(
        rows,
        vec![
            ("message".to_string(), "1".to_string(), "d".to_string(), Some("s2".to_string())),
            ("task".to_string(), "10".to_string(), "b".to_string(), None),
            ("task".to_string(), "9".to_string(), "c".to_string(), None),
        ]
    );
}
