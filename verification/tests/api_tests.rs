use ghostteam::api::auth::{authorize, provided_key, query_param};
use ghostteam::api::{
    create_task, get_agent, get_task, infer, join_agent, leave_agent, list_agents, list_messages,
    list_tasks, list_unread_messages, mark_read, send_message, ApiBody, CreateTaskRequest,
    JoinAgentRequest, LeaveAgentRequest, MarkReadRequest, SendMessageRequest,
};
use ghostteam::db::init_workspace;
use ghostteam::model::ghostos::{decode_attempt, infer_request, GhostOsConfig};
use ghostteam::paths::{api_keys_path, config_path, log_file_path, path_join, role_prompt_path};

const NOW: &str = "2026-06-29 00:00:00";

#[test]
fn agents_join_and_list_work_through_the_api() {
    let mut ws = init_workspace();
    let reply = join_agent(
        &mut ws,
        &JoinAgentRequest { id: "manager".into(), role: "manager".into(), backend: "ghostos".into() },
        NOW,
    );
    assert_eq!(reply.status, 201);
    match reply.body {
        ApiBody::Agent(m) => {
            assert!(m.ok);
            assert_eq!(m.data.id, "manager");
            assert_eq!(m.data.role, "manager");
        }
        other => panic!("unexpected body {other:?}"),
    }
    let list = list_agents(&ws);
    assert_eq!(list.status, 200);
    match list.body {
        ApiBody::Agents(m) => {
            assert!(m.ok);
            assert_eq!(m.data.len(), 1);
            assert_eq!(m.data[0].id, "manager");
        }
        other => panic!("unexpected body {other:?}"),
    }
}

#[test]
fn messages_send_and_unread_lookup_work() {
    let mut ws = init_workspace();
    let sent = send_message(
        &mut ws,
        &SendMessageRequest { from: "manager".into(), to: "worker".into(), body: "hello worker".into() },
        NOW,
    );
    assert_eq!(sent.status, 201);
    match sent.body {
        ApiBody::Sent { from, to } => {
            assert_eq!(from, "manager");
            assert_eq!(to, "worker");
        }
        other => panic!("unexpected body {other:?}"),
    }
    let unread = list_unread_messages(&ws, "worker");
    assert_eq!(unread.status, 200);
    match unread.body {
        ApiBody::Messages(m) => {
            assert!(m.ok);
            assert_eq!(m.data.len(), 1);
            assert_eq!(m.data[0].body, "hello worker");
        }
        other => panic!("unexpected body {other:?}"),
    }
}

#[test]
fn tasks_create_work_through_the_api() {
    let mut ws = init_workspace();
    let created = create_task(
        &mut ws,
        &CreateTaskRequest {
            from: "manager".into(),
            to: "worker".into(),
            description: "write the report".into(),
        },
        NOW,
    );
    assert_eq!(created.status, 201);
    match created.body {
        ApiBody::Task(m) => {
            assert!(m.ok);
            assert!(m.data.task.id > 0);
            assert_eq!(m.data.task.description, "write the report");
            assert_eq!(m.data.history.len(), 1);
            assert_eq!(m.data.history[0].event, "created");
        }
        other => panic!("unexpected body {other:?}"),
    }
    match list_tasks(&ws).body {
        ApiBody::Tasks(m) => {
            assert!(m.ok);
            assert_eq!(m.data.len(), 1);
        }
        other => panic!("unexpected body {other:?}"),
    }
}

#[test]
fn ghostos_infer_passthrough_works() {
    let config = GhostOsConfig::default();
    assert_eq!(config.ghostos_model, "ghost-1");
    let body = infer_request(&config, "hello ghostos");
    assert_eq!(body.model, "ghost-1");
    assert_eq!(body.prompt, "hello ghostos");
    let output = decode_attempt(&config.ghostos_endpoint, "{\"output\":\"mock ghostos output\"}");
    let reply = infer(output);
    assert_eq!(reply.status, 200);
    match reply.body {
        ApiBody::Inferred(r) => assert_eq!(r.output, "mock ghostos output"),
        other => panic!("unexpected body {other:?}"),
    }
    let failed = infer(Err("upstream down".to_string()));
    assert_eq!(failed.status, 502);
    assert!(matches!(failed.body, ApiBody::Failure(ref e) if e == "upstream down"));
}

#[test]
fn missing_records_answer_not_found() {
    let mut ws = init_workspace();
    let agent = get_agent(&ws, "ghost");
    assert_eq!(agent.status, 404);
    assert!(matches!(agent.body, ApiBody::Error(ref e) if e == "agent not found: ghost"));
    let task = get_task(&ws, 12);
    assert_eq!(task.status, 404);
    assert!(matches!(task.body, ApiBody::Error(ref e) if e == "task not found: 12"));
    let read = mark_read(&mut ws, &MarkReadRequest { id: 5 });
    assert_eq!(read.status, 404);
    assert!(matches!(read.body, ApiBody::Error(ref e) if e == "message not found: 5"));
    let note = list_messages();
    assert!(matches!(note.body, ApiBody::Note(ref n) if n == "use /messages/{agent} to fetch unread messages"));
}

#[test]
fn mark_read_and_leave_through_the_api() {
    let mut ws = init_workspace();
    send_message(
        &mut ws,
        &SendMessageRequest { from: "a".into(), to: "b".into(), body: "x".into() },
        NOW,
    );
    let read = mark_read(&mut ws, &MarkReadRequest { id: 1 });
    assert_eq!(read.status, 200);
    assert!(matches!(read.body, ApiBody::Id(1)));
    match list_unread_messages(&ws, "b").body {
        ApiBody::Messages(m) => assert!(m.data.is_empty()),
        other => panic!("unexpected body {other:?}"),
    }
    join_agent(&mut ws, &JoinAgentRequest { id: "w".into(), role: "r".into(), backend: "b".into() }, NOW);
    let left = leave_agent(&mut ws, &LeaveAgentRequest { id: "w".into() });
    assert_eq!(left.status, 200);
    assert!(ws.agent_rows().is_empty());
}

#[test]
fn query_param_takes_first_matching_pair() {
    assert_eq!(query_param(Some("a=1&api_key=abc&api_key=def"), "api_key").as_deref(), Some("abc"));
    assert_eq!(query_param(Some("flag&key=x=y"), "key").as_deref(), Some("x=y"));
    assert_eq!(query_param(Some("key"), "key"), None);
    assert_eq!(query_param(Some(""), "key"), None);
    assert_eq!(query_param(None, "key"), None);
    assert_eq!(query_param(Some("k=&key=v"), "k").as_deref(), Some(""));
}

#[test]
fn provided_key_prefers_header_then_api_key_then_key() {
    assert_eq!(provided_key(Some("h".into()), Some("api_key=q")).as_deref(), Some("h"));
    assert_eq!(provided_key(None, Some("key=k&api_key=q")).as_deref(), Some("q"));
    assert_eq!(provided_key(None, Some("key=k")).as_deref(), Some("k"));
    assert_eq!(provided_key(None, None), None);
}

#[test]
fn authorize_needs_a_listed_key() {
    let keys: Result<Vec<String>, String> = Ok(vec!["one".into(), "two".into()]);
    assert!(authorize(&Some("two".into()), &keys));
    assert!(!authorize(&Some("three".into()), &keys));
    assert!(!authorize(&None, &keys));
    assert!(!authorize(&Some("one".into()), &Err("unreadable".into())));
}

#[test]
fn workspace_paths_join_like_path_join() {
    assert_eq!(api_keys_path("ws"), "ws/.ghostteam/api_keys.yaml");
    assert_eq!(config_path("ws/"), "ws/.ghostteam/config.yaml");
    assert_eq!(path_join("dir/", "file"), "dir/file");
    assert_eq!(path_join("", "file"), "file");
    assert_eq!(path_join("dir", "/abs"), "/abs");
    assert_eq!(role_prompt_path("ws", "worker"), "ws/roles/worker.md");
    assert_eq!(log_file_path("/tmp/root", "manager"), "/tmp/root/.ghostteam/logs/manager.log");
}
