use std::cell::RefCell;

use ghostteam::agent::Clock;
use ghostteam::db::init_workspace;
use ghostteam::model::ModelBackend;
use ghostteam::{agent, tasks};

const NOW: &str = "2026-06-29 00:00:00";

struct TickingClock {
    ticks: RefCell<u32>,
}

impl Clock for TickingClock {
    fn now(&self) -> String {
        let mut t = self.ticks.borrow_mut();
        *t += 1;
        format!("2026-06-29 00:00:{:02}", *t)
    }
}

struct MockBackend {
    reply: String,
    prompts: RefCell<Vec<String>>,
}

impl ModelBackend for MockBackend {
    fn generate(&self, prompt: &str) -> Result<String, String> {
        self.prompts.borrow_mut().push(prompt.to_string());
        Ok(self.reply.clone())
    }
}

#[test]
fn end_to_end_collaboration_flow_works_offline() {
    let mut ws = init_workspace();

    let manager_id = agent::join_agent(&mut ws, "manager", "manager", "ghostos", NOW);
    let worker_id = agent::join_agent(&mut ws, "worker", "worker", "ghostos", NOW);
    let inspector_id = agent::join_agent(&mut ws, "inspector", "inspector", "ghostos", NOW);

    assert_eq!(manager_id, "manager");
    assert_eq!(worker_id, "worker");
    assert_eq!(inspector_id, "inspector");

    agent::send_message(&mut ws, &manager_id, &worker_id, "Please reply with status.", NOW);

    let backend = MockBackend {
        reply: "worker reply: acknowledged".to_string(),
        prompts: RefCell::new(Vec::new()),
    };
    let processed =
        agent::process_inbox_once(&mut ws, &worker_id, "# worker\nExecute assigned work.", &backend, &TickingClock { ticks: RefCell::new(0) })
            .expect("failed to process worker inbox");
    assert_eq!(processed, 1);

    let prompts = backend.prompts.borrow();
    assert_eq!(prompts.len(), 1);
    assert!(prompts[0].contains("Please reply with status."));
    assert!(prompts[0].contains("worker"));

    let manager_messages = agent::receive_messages(&mut ws, &manager_id);
    assert_eq!(manager_messages.len(), 1);
    assert_eq!(manager_messages[0].sender, worker_id);
    assert_eq!(manager_messages[0].recipient, manager_id);
    assert!(manager_messages[0].body.contains("worker reply: acknowledged"));

    let task_id = tasks::create_task(&mut ws, &manager_id, &worker_id, "Write the status report", NOW);
    assert!(task_id > 0);

    tasks::ack_task(&mut ws, task_id, &worker_id, NOW);
    tasks::complete_task(&mut ws, task_id, &worker_id, "status report ready", NOW);

    let (task_rows, _) = tasks::list_tasks(&ws);
    assert_eq!(task_rows.len(), 1);
    assert_eq!(task_rows[0].status, "completed");
    assert_eq!(task_rows[0].result.as_deref(), Some("status report ready"));

    let history_count = ws.task_history_rows().iter().filter(|h| h.task_id == task_id).count();
    assert_eq!(history_count, 3);

    let (inspector_view, _) = tasks::list_tasks(&ws);
    assert_eq!(inspector_view[0].id, task_id);
    assert_eq!(inspector_view[0].creator, manager_id);
    assert_eq!(inspector_view[0].assignee.as_deref(), Some(worker_id.as_str()));
}

struct FailingBackend;

impl ModelBackend for FailingBackend {
    fn generate(&self, _prompt: &str) -> Result<String, String> {
        Err("backend down".to_string())
    }
}

#[test]
fn failing_backend_leaves_the_inbox_unread() {
    let mut ws = init_workspace();
    agent::send_message(&mut ws, "manager", "worker", "hello", NOW);
    let outcome = agent::process_inbox_once(&mut ws, "worker", "role", &FailingBackend, &TickingClock { ticks: RefCell::new(0) });
    assert_eq!(outcome, Err("backend down".to_string()));
    assert_eq!(ws.message_rows().len(), 1);
    assert_eq!(ws.message_rows()[0].read, 0);
}

#[test]
fn each_reply_is_stamped_when_it_is_stored() {
    let mut ws = init_workspace();
    agent::send_message(&mut ws, "manager", "worker", "one", NOW);
    agent::send_message(&mut ws, "inspector", "worker", "two", NOW);
    let backend = MockBackend { reply: "ok".to_string(), prompts: RefCell::new(Vec::new()) };
    let clock = TickingClock { ticks: RefCell::new(0) };
    assert_eq!(agent::process_inbox_once(&mut ws, "worker", "role", &backend, &clock), Ok(2));
    let stamps: Vec<Option<&str>> = ws.message_rows()[2..].iter().map(|m| m.created_at.as_deref()).collect();
    assert_eq!(stamps, vec![Some("2026-06-29 00:00:01"), Some("2026-06-29 00:00:02")]);
}
