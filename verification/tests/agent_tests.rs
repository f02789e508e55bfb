use std::cell::RefCell;

use ghostteam::agent::{self, Clock};
use ghostteam::db::{init_workspace, MessageRow, Workspace};
use ghostteam::model::ModelBackend;

const NOW: &str = "2026-06-29 00:00:00";

struct FixedClock;

impl Clock for FixedClock {
    fn now(&self) -> String {
        NOW.to_string()
    }
}

struct MockBackend {
    prompts: RefCell<Vec<String>>,
}

impl MockBackend {
    fn new() -> Self {
        MockBackend { prompts: RefCell::new(Vec::new()) }
    }
}

impl ModelBackend for MockBackend {
    fn generate(&self, prompt: &str) -> Result<String, String> {
        self.prompts.borrow_mut().push(prompt.to_string());
        Ok(format!("mock-reply::{prompt}"))
    }
}

fn messages_between<'a>(ws: &'a Workspace, sender: &str, recipient: &str) -> Vec<&'a MessageRow> {
    ws.message_rows()
        .iter()
        .filter(|m| m.sender == sender && m.recipient == recipient)
        .collect()
}

#[test]
fn join_auto_suffixes_existing_ids() {
    let mut ws = init_workspace();
    let first = agent::join_agent(&mut ws, "worker", "worker", "ollama", NOW);
    let second = agent::join_agent(&mut ws, "worker", "worker", "ollama", NOW);
    let third = agent::join_agent(&mut ws, "worker", "worker", "ollama", NOW);

    assert_eq!(first, "worker");
    assert_eq!(second, "worker-2");
    assert_eq!(third, "worker-3");

    let mut ids: Vec<String> = ws.agent_rows().iter().map(|a| a.id.clone()).collect();
    ids.sort();
    assert_eq!(ids, vec!["worker", "worker-2", "worker-3"]);
}

#[test]
fn leave_removes_agent() {
    let mut ws = init_workspace();
    agent::join_agent(&mut ws, "worker", "worker", "ollama", NOW);
    agent::leave_agent(&mut ws, "worker");
    assert_eq!(ws.agent_rows().len(), 0);
}

#[test]
fn run_loop_polls_messages_and_generates_replies_once() {
    let mut ws = init_workspace();
    ws.push_message("manager", "worker", "please review the plan", NOW);

    let backend = MockBackend::new();
    let processed = agent::process_inbox_once(&mut ws, "worker", "# worker\nworker role prompt", &backend, &FixedClock)
        .expect("poll failed");
    assert_eq!(processed, 1);

    let prompts = backend.prompts.borrow();
    assert_eq!(prompts.len(), 1);
    assert!(prompts[0].contains("worker role prompt"));
    assert!(prompts[0].contains("please review the plan"));

    let original = messages_between(&ws, "manager", "worker");
    assert_eq!(original[0].read, 1);

    let replies = messages_between(&ws, "worker", "manager");
    assert_eq!(replies.len(), 1);
    assert!(replies[0].body.starts_with("mock-reply::"));
    assert_eq!(replies[0].created_at.as_deref(), Some(NOW));
}

#[test]
fn join_keeps_a_free_id_and_leave_of_unknown_id_changes_nothing() {
    let mut ws = init_workspace();
    assert_eq!(agent::join_agent(&mut ws, "alpha", "manager", "ghostos", NOW), "alpha");
    agent::leave_agent(&mut ws, "nobody");
    assert_eq!(ws.agent_rows().len(), 1);
    assert_eq!(ws.agent_rows()[0].role, "manager");
    assert_eq!(ws.agent_rows()[0].joined_at.as_deref(), Some(NOW));
}

#[test]
fn receiving_twice_delivers_each_message_once() {
    let mut ws = init_workspace();
    agent::send_message(&mut ws, "manager", "worker", "first", NOW);
    agent::send_message(&mut ws, "manager", "other", "not yours", NOW);
    agent::send_message(&mut ws, "manager", "worker", "second", NOW);

    let got = agent::receive_messages(&mut ws, "worker");
    let bodies: Vec<&str> = got.iter().map(|m| m.body.as_str()).collect();
    assert_eq!(bodies, vec!["first", "second"]);
    assert!(agent::receive_messages(&mut ws, "worker").is_empty());

    let others = agent::receive_messages(&mut ws, "other");
    assert_eq!(others.len(), 1);
    assert_eq!(others[0].body, "not yours");
}

#[test]
fn build_prompt_names_agent_sender_and_message() {
    let message = MessageRow {
        id: 3,
        sender: "manager".to_string(),
        recipient: "worker".to_string(),
        body: "ship it".to_string(),
        created_at: None,
        read: 0,
    };
    let prompt = agent::build_prompt("  role text \n", "worker", &message);
    assert!(prompt.starts_with("role text\n\nAgent: worker\nFrom: manager\nMessage: ship it"));
}

#[test]
fn leaving_after_joining_restores_the_agent_table() {
    let mut ws = init_workspace();
    agent::join_agent(&mut ws, "beta", "worker", "ollama", NOW);
    let before: Vec<String> = ws.agent_rows().iter().map(|a| a.id.clone()).collect();
    let got = agent::join_agent(&mut ws, "beta", "worker", "ollama", "2026-06-29 01:00:00");
    assert_eq!(got, "beta-2");
    agent::leave_agent(&mut ws, &got);
    let after: Vec<String> = ws.agent_rows().iter().map(|a| a.id.clone()).collect();
    assert_eq!(after, before);
}

#[test]
fn timestamps_are_written_with_padded_parts() {
    assert_eq!(agent::timestamp_text(2026, 6, 9, 7, 5, 3), "2026-06-09 07:05:03");
    assert_eq!(agent::timestamp_text(987, 12, 31, 23, 59, 59), "0987-12-31 23:59:59");
    assert_eq!(agent::timestamp_text(-44, 3, 15, 0, 0, 0), "-0044-03-15 00:00:00");
    assert_eq!(agent::timestamp_text(12345, 1, 1, 0, 0, 0), "12345-01-01 00:00:00");
}

#[test]
fn system_clock_gives_store_timestamps() {
    let now = agent::SystemClock.now();
    let bytes = now.as_bytes();
    assert_eq!(bytes.len(), 19);
    for (i, b) in bytes.iter().enumerate() {
        match i {
            4 | 7 => assert_eq!(*b, b'-'),
            10 => assert_eq!(*b, b' '),
            13 | 16 => assert_eq!(*b, b':'),
            _ => assert!(b.is_ascii_digit()),
        }
    }
}
