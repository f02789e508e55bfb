use ghostteam::db::{
    init_workspace, list_id_mapping_history, list_id_mappings, lookup_local_id,
    lookup_mapping_by_remote, lookup_remote_id, now_expr, record_id_mapping, Workspace,
};
use ghostteam::paths::{database_path, workspace_dir};

const NOW: &str = "2026-06-29 00:00:00";

#[test]
fn init_workspace_creates_directory_and_schema() {
    let root = workspace_dir(None);
    assert_eq!(root, ".ghostteam");
    assert_eq!(database_path(&root), ".ghostteam/ghostteam.db");
    let ws = init_workspace();
    assert!(ws.agent_rows().is_empty());
    assert!(ws.message_rows().is_empty());
    assert!(ws.task_rows().is_empty());
    assert!(ws.task_history_rows().is_empty());
}

#[test]
fn schema_accepts_agent_message_and_task_rows() {
    let mut ws = init_workspace();
    ws.join_agent("worker", "worker", "ollama", NOW);
    ws.push_message("manager", "worker", "hello", NOW);
    ws.insert_task("manager", "worker", "document the plan", NOW);
    assert_eq!(ws.agent_rows().len(), 1);
    assert_eq!(ws.message_rows().len(), 1);
    assert_eq!(ws.task_rows().len(), 1);
}

#[test]
fn now_expr_is_sqlite_current_time() {
    assert_eq!(now_expr(), "datetime('now')");
}

#[test]
fn recorded_mapping_is_found_both_ways_and_updates_in_place() {
    let mut ws = Workspace::new();
    record_id_mapping(&mut ws, "task", "7", "ghostteam-task-7", Some("kasperkonnect"), NOW);
    assert_eq!(lookup_remote_id(&ws, "task", "7").as_deref(), Some("ghostteam-task-7"));
    assert_eq!(lookup_local_id(&ws, "task", "ghostteam-task-7").as_deref(), Some("7"));
    assert!(lookup_remote_id(&ws, "message", "7").is_none());

    record_id_mapping(&mut ws, "task", "7", "remote-7b", None, "2026-06-30 00:00:00");
    assert_eq!(lookup_remote_id(&ws, "task", "7").as_deref(), Some("remote-7b"));
    let mappings = list_id_mappings(&ws);
    assert_eq!(mappings.len(), 1);
    assert_eq!(mappings[0].created_at.as_deref(), Some(NOW));
    assert_eq!(mappings[0].updated_at.as_deref(), Some("2026-06-30 00:00:00"));
    assert!(mappings[0].remote_source.is_none());

    let history = list_id_mapping_history(&ws);
    assert_eq!(history.len(), 2);
    assert!(history.iter().all(|h| h.action == "upsert"));
    let found = lookup_mapping_by_remote(&ws, "task", "remote-7b").expect("mapping");
    assert_eq!(found.local_id, "7");
}

#[test]
fn mappings_list_by_kind_then_local_id() {
    let mut ws = Workspace::new();
    record_id_mapping(&mut ws, "task", "2", "r2", None, NOW);
    record_id_mapping(&mut ws, "message", "9", "r9", None, NOW);
    record_id_mapping(&mut ws, "task", "1", "r1", None, NOW);
    let keys: Vec<(String, String)> =
        list_id_mappings(&ws).into_iter().map(|m| (m.entity_kind, m.local_id)).collect();
    assert_eq!(
        keys,
        vec![
            ("message".to_string(), "9".to_string()),
            ("task".to_string(), "1".to_string()),
            ("task".to_string(), "2".to_string()),
        ]
    );
}

#[test]
fn from_tables_refuses_duplicate_agent_ids() {
    let mut agents = Vec::new();
    let mut ws2 = init_workspace();
    ws2.join_agent("a", "r", "b", NOW);
    agents.push(ws2.agent_rows()[0].duplicate());
    agents.push(ws2.agent_rows()[0].duplicate());
    let built = Workspace::from_tables(agents, Vec::new(), Vec::new(), Vec::new(), Vec::new(), Vec::new());
    assert!(built.is_none());
}
