use ghostteam::db::{init_workspace, Workspace};
use ghostteam::tasks;

const NOW: &str = "2026-06-29 00:00:00";

fn status_of(ws: &Workspace, id: i64) -> String {
    ws.task_rows().iter().find(|t| t.id == id).expect("task").status.clone()
}

fn history_count(ws: &Workspace, id: i64) -> usize {
    ws.task_history_rows().iter().filter(|h| h.task_id == id).count()
}

#[test]
fn create_task_inserts_created_row_and_history() {
    let mut ws = init_workspace();
    let task_id = tasks::create_task(&mut ws, "manager", "worker", "draft the report", NOW);
    assert!(task_id > 0);
    assert_eq!(status_of(&ws, task_id), "created");
    assert_eq!(history_count(&ws, task_id), 1);
}

#[test]
fn ack_task_updates_status_and_records_history() {
    let mut ws = init_workspace();
    let task_id = tasks::create_task(&mut ws, "manager", "worker", "draft the report", NOW);
    tasks::ack_task(&mut ws, task_id, "worker", NOW);
    assert_eq!(status_of(&ws, task_id), "acked");
    assert_eq!(history_count(&ws, task_id), 2);
}

#[test]
fn complete_task_updates_result_and_records_history() {
    let mut ws = init_workspace();
    let task_id = tasks::create_task(&mut ws, "manager", "worker", "draft the report", NOW);
    tasks::ack_task(&mut ws, task_id, "worker", NOW);
    tasks::complete_task(&mut ws, task_id, "worker", "done", NOW);
    let task = ws.task_rows().iter().find(|t| t.id == task_id).expect("task");
    assert_eq!(task.status, "completed");
    assert_eq!(task.result.as_deref(), Some("done"));
    assert_eq!(history_count(&ws, task_id), 3);
}

#[test]
fn requeue_task_sets_status_and_records_history() {
    let mut ws = init_workspace();
    let task_id = tasks::create_task(&mut ws, "manager", "worker", "draft the report", NOW);
    tasks::requeue_task(&mut ws, task_id, NOW);
    assert_eq!(status_of(&ws, task_id), "requeued");
    assert_eq!(history_count(&ws, task_id), 2);
}

#[test]
fn list_tasks_returns_saved_rows() {
    let mut ws = init_workspace();
    let task_id = tasks::create_task(&mut ws, "manager", "worker", "draft the report", NOW);
    tasks::ack_task(&mut ws, task_id, "worker", NOW);
    let (rows, _) = tasks::list_tasks(&ws);
    assert_eq!(rows.len(), 1);
    assert_eq!(rows[0].id, task_id);
    assert_eq!(rows[0].status, "acked");
    assert_eq!(rows[0].description, "draft the report");
    let (_, lines) = tasks::list_tasks(&ws);
    assert_eq!(lines, vec![format!("{task_id}\tmanager\tworker\tdraft the report\tacked\t\t{NOW}\t{NOW}")]);
}

#[test]
fn tasks_list_newest_first_and_ids_increase() {
    let mut ws = init_workspace();
    let a = tasks::create_task(&mut ws, "m", "w", "one", NOW);
    let b = tasks::create_task(&mut ws, "m", "w", "two", NOW);
    assert_eq!((a, b), (1, 2));
    let (rows, _) = tasks::list_tasks(&ws);
    assert_eq!(rows[0].id, 2);
    assert_eq!(rows[1].id, 1);
}

#[test]
fn transitions_of_a_missing_task_report_it_and_touch_no_task() {
    let mut ws = init_workspace();
    tasks::create_task(&mut ws, "m", "w", "one", NOW);
    assert!(!tasks::ack_task(&mut ws, 99, "w", NOW));
    assert!(!tasks::requeue_task(&mut ws, 99, NOW));
    assert_eq!(status_of(&ws, 1), "created");
    assert!(tasks::task_detail(&ws, 99).is_none());
}

#[test]
fn task_detail_lists_history_in_order() {
    let mut ws = init_workspace();
    let id = tasks::create_task(&mut ws, "manager", "worker", "draft", NOW);
    tasks::ack_task(&mut ws, id, "worker", NOW);
    tasks::complete_task(&mut ws, id, "worker", "done", NOW);
    let (task, history) = tasks::task_detail(&ws, id).expect("detail");
    assert_eq!(task.assignee.as_deref(), Some("worker"));
    let events: Vec<&str> = history.iter().map(|h| h.event.as_str()).collect();
    assert_eq!(events, vec!["created", "acked", "completed"]);
    let actors: Vec<&str> = history.iter().map(|h| h.actor.as_str()).collect();
    assert_eq!(actors, vec!["manager", "worker", "worker"]);
}

#[test]
fn task_line_is_tab_separated_with_empty_absent_values() {
    let mut ws = init_workspace();
    tasks::create_task(&mut ws, "manager", "worker", "draft", NOW);
    let (rows, _) = tasks::list_tasks(&ws);
    assert_eq!(
        tasks::task_line(&rows[0]),
        format!("1\tmanager\tworker\tdraft\tcreated\t\t{NOW}\t{NOW}")
    );
}
