//! Agents: joining under a free id, leaving, messaging, and answering the
//! inbox through a model backend.
use vstd::prelude::*;
use crate::db::{
    candidate, first_free, has_agent, is_new_message, mark_read_before, next_message_id, opt_view,
    unread_of, AgentRow, MessageRow, Workspace,
};
use crate::model::{result_view, ModelBackend};
use crate::text::{decimal, push_char, push_padded_decimal, trim, trim_seq, zero_padded};

verus! {

broadcast use vstd::string::group_string_axioms;

/// Registers an agent under `id`, or under `<id>-2`, `<id>-3`, ... (the
/// first that no agent holds), and returns the id it got.
pub fn join_agent(ws: &mut Workspace, id: &str, role: &str, backend: &str, now: &str) -> (r: String)
    requires
        old(ws).wf(),
        old(ws).agents().len() < usize::MAX,
    ensures
        final(ws).wf(),
        exists|k: nat| first_free(old(ws).agents(), id@, k) && r@ == candidate(id@, k),
        !has_agent(old(ws).agents(), r@),
        has_agent(final(ws).agents(), r@),
        exists|p: int|
            0 <= p <= old(ws).agents().len() && final(ws).agents() == old(ws).agents().insert(
                p,
                final(ws).agents()[p],
            ) && final(ws).agents()[p].id@ == r@ && final(ws).agents()[p].role@ == role@
                && final(ws).agents()[p].backend@ == backend@ && opt_view(
                final(ws).agents()[p].joined_at,
            ) == Some(now@),
        final(ws).messages() == old(ws).messages(),
        final(ws).tasks() == old(ws).tasks(),
        final(ws).task_history() == old(ws).task_history(),
        final(ws).mappings() == old(ws).mappings(),
        final(ws).mapping_history() == old(ws).mapping_history(),
{
    let r = ws.join_agent(id, role, backend, now);
    proof {
        let p = choose|p: int|
            0 <= p <= old(ws).agents().len() && ws.agents() == old(ws).agents().insert(
                p,
                ws.agents()[p],
            ) && ws.agents()[p].id@ == r@ && ws.agents()[p].role@ == role@
                && ws.agents()[p].backend@ == backend@ && opt_view(ws.agents()[p].joined_at)
                == Some(now@);
        assert(ws.agents()[p].id@ == r@);
    }
    r
}

/// Removes the agent with the given id (nothing happens when there is none).
pub fn leave_agent(ws: &mut Workspace, id: &str)
    requires
        old(ws).wf(),
    ensures
        final(ws).wf(),
        !has_agent(final(ws).agents(), id@),
        has_agent(old(ws).agents(), id@) ==> exists|k: int|
            0 <= k < old(ws).agents().len() && old(ws).agents()[k].id@ == id@ && final(ws).agents()
                == old(ws).agents().remove(k),
        !has_agent(old(ws).agents(), id@) ==> final(ws).agents() == old(ws).agents(),
        final(ws).messages() == old(ws).messages(),
        final(ws).tasks() == old(ws).tasks(),
        final(ws).task_history() == old(ws).task_history(),
        final(ws).mappings() == old(ws).mappings(),
        final(ws).mapping_history() == old(ws).mapping_history(),
{
    let _ = ws.leave_agent(id);
}

/// The registered agents, ordered by join time and then id.
pub fn list_agents(ws: &Workspace) -> (r: Vec<AgentRow>)
    ensures
        r@ == ws.agents(),
{
    ws.list_agents()
}

/// Stores an unread message from `from` to `to`.
pub fn send_message(ws: &mut Workspace, from: &str, to: &str, message: &str, now: &str) -> (id: i64)
    requires
        old(ws).wf(),
        old(ws).message_room(),
    ensures
        final(ws).wf(),
        id == next_message_id(old(ws).messages()),
        final(ws).messages() == old(ws).messages().push(final(ws).messages().last()),
        is_new_message(final(ws).messages().last(), id as int, from@, to@, message@, now@),
        final(ws).agents() == old(ws).agents(),
        final(ws).tasks() == old(ws).tasks(),
        final(ws).task_history() == old(ws).task_history(),
        final(ws).mappings() == old(ws).mappings(),
        final(ws).mapping_history() == old(ws).mapping_history(),
{
    let id = ws.push_message(from, to, message, now);
    assert(ws.messages() =~= old(ws).messages().push(ws.messages().last()));
    id
}

/// Delivers the unread messages addressed to `id`: returns them (oldest
/// first, as they were before delivery) and marks them read.
pub fn receive_messages(ws: &mut Workspace, id: &str) -> (r: Vec<MessageRow>)
    requires
        old(ws).wf(),
    ensures
        final(ws).wf(),
        r@ == unread_of(old(ws).messages(), id@),
        final(ws).messages() == mark_read_before(
            old(ws).messages(),
            id@,
            old(ws).messages().len() as int,
        ),
        final(ws).agents() == old(ws).agents(),
        final(ws).tasks() == old(ws).tasks(),
        final(ws).task_history() == old(ws).task_history(),
        final(ws).mappings() == old(ws).mappings(),
        final(ws).mapping_history() == old(ws).mapping_history(),
{
    let messages = ws.unread_messages(id);
    let n = ws.message_rows().len();
    ws.mark_unread_read(id, n);
    messages
}

/// A source of the current time, in the form the store keeps timestamps.
pub trait Clock {
    /// The current time.
    fn now(&self) -> String;
}

/// The system clock, in UTC, as `YYYY-MM-DD HH:MM:SS` (the form of SQLite's
/// `datetime('now')`).
#[derive(Debug, Default, Clone, Copy)]
pub struct SystemClock;

/// The current UTC time from `time::OffsetDateTime::now_utc`, as its year,
/// month, day, hour, minute and second. Which time it is depends on when it
/// is called, so only the ranges of the parts are stated: the year is within
/// the range `time` supports, the month is 1 to 12, the day 1 to 31, and the
/// hour, minute and second are those of a clock that has no leap seconds.
#[verifier::external_body]
fn utc_now_parts() -> (r: (i32, u8, u8, u8, u8, u8))
    ensures
        -999_999 <= r.0 <= 999_999,
        1 <= r.1 <= 12,
        1 <= r.2 <= 31,
        r.3 < 24,
        r.4 < 60,
        r.5 < 60,
{
    let t = time::OffsetDateTime::now_utc();
    (t.year(), u8::from(t.month()), t.day(), t.hour(), t.minute(), t.second())
}

/// A year written with at least four digits, with a `-` in front when it is
/// negative.
pub open spec fn year_text(year: int) -> Seq<char> {
    if year < 0 {
        seq!['-'] + zero_padded(decimal((-year) as nat), 4)
    } else {
        zero_padded(decimal(year as nat), 4)
    }
}

/// A time written as `YYYY-MM-DD HH:MM:SS`, each part but the year padded
/// with zeros to two digits.
pub open spec fn timestamp_layout(year: int, month: nat, day: nat, hour: nat, minute: nat, second: nat) -> Seq<
    char,
> {
    year_text(year) + seq!['-'] + zero_padded(decimal(month), 2) + seq!['-'] + zero_padded(decimal(day), 2)
        + seq![' '] + zero_padded(decimal(hour), 2) + seq![':'] + zero_padded(decimal(minute), 2) + seq![':']
        + zero_padded(decimal(second), 2)
}

/// A time in the form the store keeps timestamps in (the form of SQLite's
/// `datetime('now')`).
pub fn timestamp_text(year: i32, month: u8, day: u8, hour: u8, minute: u8, second: u8) -> (r: String)
    ensures
        r@ == timestamp_layout(year as int, month as nat, day as nat, hour as nat, minute as nat, second as nat),
{
    let mut r = String::new();
    let y = year as i64;
    if y < 0 {
        push_char(&mut r, '-');
        push_padded_decimal(&mut r, (-y) as u64, 4);
    } else {
        push_padded_decimal(&mut r, y as u64, 4);
    }
    assert(r@ =~= year_text(year as int));
    push_char(&mut r, '-');
    push_padded_decimal(&mut r, month as u64, 2);
    push_char(&mut r, '-');
    push_padded_decimal(&mut r, day as u64, 2);
    push_char(&mut r, ' ');
    push_padded_decimal(&mut r, hour as u64, 2);
    push_char(&mut r, ':');
    push_padded_decimal(&mut r, minute as u64, 2);
    push_char(&mut r, ':');
    push_padded_decimal(&mut r, second as u64, 2);
    assert(r@ =~= timestamp_layout(
        year as int,
        month as nat,
        day as nat,
        hour as nat,
        minute as nat,
        second as nat,
    ));
    r
}

impl Clock for SystemClock {
    fn now(&self) -> String {
        let (year, month, day, hour, minute, second) = utc_now_parts();
        timestamp_text(year, month, day, hour, minute, second)
    }
}

/// The prompt a backend gets for one incoming message.
pub open spec fn prompt_text(
    role_prompt: Seq<char>,
    agent_id: Seq<char>,
    sender: Seq<char>,
    body: Seq<char>,
) -> Seq<char> {
    trim_seq(role_prompt) + "\n\nAgent: "@ + agent_id + "\nFrom: "@ + sender + "\nMessage: "@
        + body
}

/// The prompt for answering `message` as agent `agent_id` with the given
/// role prompt.
pub fn build_prompt(role_prompt: &str, agent_id: &str, message: &MessageRow) -> (r: String)
    ensures
        r@ == prompt_text(role_prompt@, agent_id@, message.sender@, message.body@),
{
    let mut r = trim(role_prompt);
    r.append("\n\nAgent: ");
    r.append(agent_id);
    r.append("\nFrom: ");
    r.append(message.sender.as_str());
    r.append("\nMessage: ");
    r.append(message.body.as_str());
    r
}

/// The first `k` replies after position `base` of `msgs` answer the first
/// `k` messages of `inbox`: each goes from `id` back to the sender, carries a
/// body the backend generated for that message's prompt, and is stored,
/// with the time it was stored at, under consecutive ids from `first_id`.
pub open spec fn replies_answer<B: ModelBackend>(
    backend: B,
    msgs: Seq<MessageRow>,
    base: int,
    first_id: int,
    inbox: Seq<MessageRow>,
    role_prompt: Seq<char>,
    id: Seq<char>,
    k: int,
) -> bool {
    forall|j: int|
        0 <= j < k ==> {
            &&& msgs[base + j].created_at is Some
            &&& is_new_message(
                #[trigger] msgs[base + j],
                first_id + j,
                id,
                inbox[j].sender@,
                msgs[base + j].body@,
                opt_view(msgs[base + j].created_at)->0,
            )
            &&& backend.generates(
                prompt_text(role_prompt, id, inbox[j].sender@, inbox[j].body@),
                Ok(msgs[base + j].body@),
            )
        }
}

/// Answers every unread message addressed to `id`: each gets a reply from
/// `id` to its sender with what `backend` generates for its prompt, then the
/// answered messages are marked read.  Returns how many were answered.  When
/// the backend fails, the replies made so far stay, nothing is marked read,
/// and the failure is returned.  Each reply is stamped with the time `clock`
/// gives when it is stored.
pub fn process_inbox_once<B: ModelBackend, C: Clock>(
    ws: &mut Workspace,
    id: &str,
    role_prompt: &str,
    backend: &B,
    clock: &C,
) -> (r: Result<usize, String>)
    requires
        old(ws).wf(),
        next_message_id(old(ws).messages()) + old(ws).messages().len() <= i64::MAX,
    ensures
        final(ws).wf(),
        ({
            let old_msgs = old(ws).messages();
            let inbox = unread_of(old_msgs, id@);
            let base = old_msgs.len() as int;
            let first_id = next_message_id(old_msgs);
            match r {
                Ok(n) => {
                    &&& n == inbox.len()
                    &&& final(ws).messages().len() == base + n
                    &&& final(ws).messages().take(base) == mark_read_before(old_msgs, id@, base)
                    &&& replies_answer(
                        *backend,
                        final(ws).messages(),
                        base,
                        first_id,
                        inbox,
                        role_prompt@,
                        id@,
                        n as int,
                    )
                },
                Err(e) => {
                    let k = final(ws).messages().len() - base;
                    &&& 0 <= k < inbox.len()
                    &&& final(ws).messages().take(base) == old_msgs
                    &&& replies_answer(
                        *backend,
                        final(ws).messages(),
                        base,
                        first_id,
                        inbox,
                        role_prompt@,
                        id@,
                        k,
                    )
                    &&& backend.generates(
                        prompt_text(role_prompt@, id@, inbox[k].sender@, inbox[k].body@),
                        Err(e@),
                    )
                },
            }
        }),
        final(ws).agents() == old(ws).agents(),
        final(ws).tasks() == old(ws).tasks(),
        final(ws).task_history() == old(ws).task_history(),
        final(ws).mappings() == old(ws).mappings(),
        final(ws).mapping_history() == old(ws).mapping_history(),
{
    let ghost old_msgs = ws.messages();
    let ghost first_id = next_message_id(old_msgs);
    let base = ws.message_rows().len();
    let inbox = ws.unread_messages(id);
    proof {
        lemma_unread_of_len(old_msgs, id@);
    }
    let mut k: usize = 0;
    while k < inbox.len()
        invariant
            ws.wf(),
            old_msgs == old(ws).messages(),
            k <= inbox@.len(),
            inbox@ == unread_of(old_msgs, id@),
            inbox@.len() <= old_msgs.len(),
            base == old_msgs.len(),
            first_id == next_message_id(old_msgs),
            first_id + old_msgs.len() <= i64::MAX,
            ws.messages().len() == base + k,
            ws.messages().take(base as int) == old_msgs,
            k > 0 ==> ws.messages().last().id == first_id + k - 1,
            k == 0 ==> ws.messages() == old_msgs,
            replies_answer(
                *backend,
                ws.messages(),
                base as int,
                first_id,
                inbox@,
                role_prompt@,
                id@,
                k as int,
            ),
            ws.agents() == old(ws).agents(),
            ws.tasks() == old(ws).tasks(),
            ws.task_history() == old(ws).task_history(),
            ws.mappings() == old(ws).mappings(),
            ws.mapping_history() == old(ws).mapping_history(),
        decreases inbox.len() - k,
    {
        let prompt = build_prompt(role_prompt, id, &inbox[k]);
        let reply = backend.generate(prompt.as_str());
        match reply {
            Err(e) => {
                assert(backend.generates(
                    prompt_text(role_prompt@, id@, inbox@[k as int].sender@, inbox@[k as int].body@),
                    Err(e@),
                ));
                assert(ws.messages().len() - base == k);
                return Err(e);
            },
            Ok(body) => {
                let ghost before = ws.messages();
                let now = clock.now();
                let new_id = ws.push_message(id, inbox[k].sender.as_str(), body.as_str(), now.as_str());
                proof {
                    assert(ws.messages().drop_last() == before);
                    assert(ws.messages().take(base as int) =~= before.take(base as int));
                    assert(new_id == first_id + k);
                    assert forall|j: int| 0 <= j < k + 1 implies {
                        &&& ws.messages()[base + j].created_at is Some
                        &&& is_new_message(
                            #[trigger] ws.messages()[base + j],
                            first_id + j,
                            id@,
                            inbox@[j].sender@,
                            ws.messages()[base + j].body@,
                            opt_view(ws.messages()[base + j].created_at)->0,
                        )
                        &&& backend.generates(
                            prompt_text(role_prompt@, id@, inbox@[j].sender@, inbox@[j].body@),
                            Ok(ws.messages()[base + j].body@),
                        )
                    } by {
                        if j < k {
                            assert(ws.messages()[base + j] == before[base + j]);
                        } else {
                            assert(ws.messages()[base + j] == ws.messages().last());
                        }
                    }
                }
                k = k + 1;
            },
        }
    }
    let ghost replied = ws.messages();
    ws.mark_unread_read(id, base);
    proof {
        let marked = ws.messages();
        assert(marked.take(base as int) =~= mark_read_before(old_msgs, id@, base as int));
        assert forall|j: int| 0 <= j < k implies #[trigger] marked[base + j] == replied[base + j] by {}
    }
    Ok(k)
}

/// A workspace-independent hook kept for agents that need start-up work;
/// it has none to do.
pub fn run_agent() -> (r: Result<(), String>)
    ensures
        r is Ok,
{
    Ok(())
}

/// There are never more unread messages than messages.
pub proof fn lemma_unread_of_len(s: Seq<MessageRow>, r: Seq<char>)
    ensures
        unread_of(s, r).len() <= s.len(),
    decreases s.len(),
{
    if s.len() > 0 {
        lemma_unread_of_len(s.drop_last(), r);
    }
}

} // verus!
