//! The task lifecycle: a task is created for an assignee, acknowledged,
//! completed with a result or put back in the queue, and every step is
//! recorded in the task's history.
use vstd::prelude::*;
use crate::db::{
    has_task, history_of, is_new_history, is_new_task, is_task_update, next_history_id,
    next_task_id, opt_view, MessageRow, TaskHistoryRow, TaskRow, Workspace,
};
use crate::konnect::strings_view;
use crate::text::{decimal_int, format_i64};

verus! {

broadcast use vstd::string::group_string_axioms;

/// `new` is `old` after the task with id `id` was updated (see
/// `is_task_update`); every other task is unchanged.
pub open spec fn tasks_after_update(
    old: Seq<TaskRow>,
    new: Seq<TaskRow>,
    id: int,
    status: Seq<char>,
    assignee: Option<Seq<char>>,
    result: Option<Seq<char>>,
    now: Seq<char>,
) -> bool {
    &&& new.len() == old.len()
    &&& forall|k: int|
        0 <= k < old.len() ==> if old[k].id == id {
            is_task_update(#[trigger] new[k], old[k], status, assignee, result, now)
        } else {
            new[k] == old[k]
        }
}

/// `new` is `old` with one more history row, for the given event.
pub open spec fn history_appended(
    old: Seq<TaskHistoryRow>,
    new: Seq<TaskHistoryRow>,
    task_id: int,
    event: Seq<char>,
    actor: Seq<char>,
    now: Seq<char>,
) -> bool {
    &&& new.len() == old.len() + 1
    &&& new.drop_last() == old
    &&& is_new_history(new.last(), next_history_id(old), task_id, event, actor, now)
}

/// Stores an unread message from `from` to `to` (same as agent messaging).
pub fn send_message(ws: &mut Workspace, from: &str, to: &str, body: &str, now: &str) -> (id: i64)
    requires
        old(ws).wf(),
        old(ws).message_room(),
    ensures
        final(ws).wf(),
        id == crate::db::next_message_id(old(ws).messages()),
        final(ws).messages() == old(ws).messages().push(final(ws).messages().last()),
        crate::db::is_new_message(final(ws).messages().last(), id as int, from@, to@, body@, now@),
        final(ws).agents() == old(ws).agents(),
        final(ws).tasks() == old(ws).tasks(),
        final(ws).task_history() == old(ws).task_history(),
        final(ws).mappings() == old(ws).mappings(),
        final(ws).mapping_history() == old(ws).mapping_history(),
{
    crate::agent::send_message(ws, from, to, body, now)
}

/// Delivers the unread messages addressed to `id` (same as agent delivery).
pub fn receive_messages(ws: &mut Workspace, id: &str) -> (r: Vec<MessageRow>)
    requires
        old(ws).wf(),
    ensures
        final(ws).wf(),
        r@ == crate::db::unread_of(old(ws).messages(), id@),
        final(ws).messages() == crate::db::mark_read_before(
            old(ws).messages(),
            id@,
            old(ws).messages().len() as int,
        ),
        final(ws).agents() == old(ws).agents(),
        final(ws).tasks() == old(ws).tasks(),
        final(ws).task_history() == old(ws).task_history(),
        final(ws).mappings() == old(ws).mappings(),
        final(ws).mapping_history() == old(ws).mapping_history(),
{
    crate::agent::receive_messages(ws, id)
}

/// Creates a task from `from` for `to` with status `created`, records the
/// `created` event by `from`, and returns the task's id.
pub fn create_task(ws: &mut Workspace, from: &str, to: &str, description: &str, now: &str) -> (id:
    i64)
    requires
        old(ws).wf(),
        old(ws).task_room(),
        old(ws).history_room(),
    ensures
        final(ws).wf(),
        id == next_task_id(old(ws).tasks()),
        id >= 1 ==> !has_task(old(ws).tasks(), id as int),
        final(ws).tasks() == old(ws).tasks().push(final(ws).tasks().last()),
        is_new_task(final(ws).tasks().last(), id as int, from@, to@, description@, now@),
        history_appended(
            old(ws).task_history(),
            final(ws).task_history(),
            id as int,
            "created"@,
            from@,
            now@,
        ),
        final(ws).agents() == old(ws).agents(),
        final(ws).messages() == old(ws).messages(),
        final(ws).mappings() == old(ws).mappings(),
        final(ws).mapping_history() == old(ws).mapping_history(),
{
    let id = ws.insert_task(from, to, description, now);
    let _ = ws.push_history(id, "created", from, now);
    assert(ws.tasks() =~= old(ws).tasks().push(ws.tasks().last()));
    proof {
        if has_task(old(ws).tasks(), id as int) {
            let k = choose|k: int| 0 <= k < old(ws).tasks().len() && (#[trigger] old(ws).tasks()[k]).id == id;
            if k < old(ws).tasks().len() - 1 {
                assert(old(ws).tasks()[k].id < old(ws).tasks().last().id);
            }
        }
    }
    id
}

/// Acknowledges task `id` for `worker`: status `acked`, assignee `worker`;
/// records the `acked` event by `worker`.
pub fn ack_task(ws: &mut Workspace, id: i64, worker: &str, now: &str) -> (found: bool)
    requires
        old(ws).wf(),
        old(ws).history_room(),
    ensures
        final(ws).wf(),
        found == has_task(old(ws).tasks(), id as int),
        tasks_after_update(
            old(ws).tasks(),
            final(ws).tasks(),
            id as int,
            "acked"@,
            Some(worker@),
            None,
            now@,
        ),
        history_appended(
            old(ws).task_history(),
            final(ws).task_history(),
            id as int,
            "acked"@,
            worker@,
            now@,
        ),
        final(ws).agents() == old(ws).agents(),
        final(ws).messages() == old(ws).messages(),
        final(ws).mappings() == old(ws).mappings(),
        final(ws).mapping_history() == old(ws).mapping_history(),
{
    let found = ws.update_task(id, "acked", Some(worker), None, now);
    let _ = ws.push_history(id, "acked", worker, now);
    found
}

/// Completes task `id` by `worker` with `result`: status `completed`,
/// assignee `worker`; records the `completed` event by `worker`.
pub fn complete_task(ws: &mut Workspace, id: i64, worker: &str, result: &str, now: &str) -> (found:
    bool)
    requires
        old(ws).wf(),
        old(ws).history_room(),
    ensures
        final(ws).wf(),
        found == has_task(old(ws).tasks(), id as int),
        tasks_after_update(
            old(ws).tasks(),
            final(ws).tasks(),
            id as int,
            "completed"@,
            Some(worker@),
            Some(result@),
            now@,
        ),
        history_appended(
            old(ws).task_history(),
            final(ws).task_history(),
            id as int,
            "completed"@,
            worker@,
            now@,
        ),
        final(ws).agents() == old(ws).agents(),
        final(ws).messages() == old(ws).messages(),
        final(ws).mappings() == old(ws).mappings(),
        final(ws).mapping_history() == old(ws).mapping_history(),
{
    let found = ws.update_task(id, "completed", Some(worker), Some(result), now);
    let _ = ws.push_history(id, "completed", worker, now);
    found
}

/// Puts task `id` back in the queue: status `requeued`; records the
/// `requeued` event by `system`.
pub fn requeue_task(ws: &mut Workspace, id: i64, now: &str) -> (found: bool)
    requires
        old(ws).wf(),
        old(ws).history_room(),
    ensures
        final(ws).wf(),
        found == has_task(old(ws).tasks(), id as int),
        tasks_after_update(
            old(ws).tasks(),
            final(ws).tasks(),
            id as int,
            "requeued"@,
            None,
            None,
            now@,
        ),
        history_appended(
            old(ws).task_history(),
            final(ws).task_history(),
            id as int,
            "requeued"@,
            "system"@,
            now@,
        ),
        final(ws).agents() == old(ws).agents(),
        final(ws).messages() == old(ws).messages(),
        final(ws).mappings() == old(ws).mappings(),
        final(ws).mapping_history() == old(ws).mapping_history(),
{
    let found = ws.update_task(id, "requeued", None, None, now);
    let _ = ws.push_history(id, "requeued", "system", now);
    found
}

/// Each task's tab-separated line.
pub open spec fn task_row_lines(s: Seq<TaskRow>) -> Seq<Seq<char>> {
    s.map_values(|t: TaskRow| task_line_text(t))
}

/// All tasks, newest (highest id) first, with the lines the listing prints:
/// one tab-separated line per task, in the same order.
pub fn list_tasks(ws: &Workspace) -> (r: (Vec<TaskRow>, Vec<String>))
    ensures
        r.0@ == ws.tasks().reverse(),
        strings_view(r.1@) == task_row_lines(ws.tasks().reverse()),
{
    let rows = ws.tasks_newest_first();
    let lines = task_lines(&rows);
    (rows, lines)
}

/// The listing line of each task, in order.
pub fn task_lines(rows: &Vec<TaskRow>) -> (r: Vec<String>)
    ensures
        strings_view(r@) == task_row_lines(rows@),
{
    let mut r: Vec<String> = Vec::new();
    let mut i: usize = 0;
    while i < rows.len()
        invariant
            i <= rows@.len(),
            strings_view(r@) == task_row_lines(rows@.take(i as int)),
        decreases rows.len() - i,
    {
        let line = task_line(&rows[i]);
        let ghost before = strings_view(r@);
        r.push(line);
        assert(strings_view(r@) =~= before.push(line@));
        assert(task_row_lines(rows@.take(i + 1)) =~= task_row_lines(rows@.take(i as int)).push(
            task_line_text(rows@[i as int]),
        ));
        i = i + 1;
    }
    assert(rows@.take(rows@.len() as int) =~= rows@);
    r
}

/// The task with the given id and its history, oldest event first.
pub fn task_detail(ws: &Workspace, id: i64) -> (r: Option<(TaskRow, Vec<TaskHistoryRow>)>)
    ensures
        r is Some <==> has_task(ws.tasks(), id as int),
        r matches Some((t, h)) ==> {
            &&& t.id == id
            &&& exists|k: int| 0 <= k < ws.tasks().len() && ws.tasks()[k] == t
            &&& h@ == history_of(ws.task_history(), id as int)
        },
{
    match ws.find_task(id) {
        None => None,
        Some(t) => Some((t, ws.history_for(id))),
    }
}

/// A task-loading hook kept for callers that expect one; tasks live in the
/// workspace, so there is nothing to load.
pub fn load_tasks() -> (r: Result<(), String>)
    ensures
        r is Ok,
{
    Ok(())
}

/// An optional value printed as itself, or as nothing when absent.
pub open spec fn or_empty(o: Option<Seq<char>>) -> Seq<char> {
    match o {
        Some(s) => s,
        None => Seq::empty(),
    }
}

/// Appends an optional value, or nothing when absent.
pub fn append_opt(s: &mut String, o: &Option<String>)
    ensures
        final(s)@ == old(s)@ + or_empty(opt_view(*o)),
{
    match o {
        Some(x) => s.append(x.as_str()),
        None => {
            assert(old(s)@ + Seq::<char>::empty() =~= old(s)@);
        },
    }
}

/// The tab-separated line a task is listed as: id, creator, assignee,
/// description, status, result, created_at, updated_at (absent values empty).
pub open spec fn task_line_text(t: TaskRow) -> Seq<char> {
    decimal_int(t.id as int) + "\t"@ + t.creator@ + "\t"@ + or_empty(opt_view(t.assignee)) + "\t"@
        + t.description@ + "\t"@ + t.status@ + "\t"@ + or_empty(opt_view(t.result)) + "\t"@
        + or_empty(opt_view(t.created_at)) + "\t"@ + or_empty(opt_view(t.updated_at))
}

/// The tab-separated line a task is listed as.
pub fn task_line(t: &TaskRow) -> (r: String)
    ensures
        r@ == task_line_text(*t),
{
    let mut r = format_i64(t.id);
    r.append("\t");
    r.append(t.creator.as_str());
    r.append("\t");
    append_opt(&mut r, &t.assignee);
    r.append("\t");
    r.append(t.description.as_str());
    r.append("\t");
    r.append(t.status.as_str());
    r.append("\t");
    append_opt(&mut r, &t.result);
    r.append("\t");
    append_opt(&mut r, &t.created_at);
    r.append("\t");
    append_opt(&mut r, &t.updated_at);
    r
}

} // verus!
