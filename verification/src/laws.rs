//! What holds of the library across calls: delivering an inbox empties it,
//! a recorded mapping is what a lookup finds, every task transition leaves
//! exactly one more event in that task's history, mirrored ids never
//! collide, and normalising an address twice changes nothing; and what the
//! API, the command lines and the Telegram replies show of the store: the
//! key gate lets through exactly the listed keys, and responses and printed
//! lines carry each stored row's own fields in their places.
use vstd::prelude::*;
use crate::db::{
    candidate, first_free, has_agent, has_mapping, history_of, is_mapping_update, is_new_mapping,
    mappings_sorted, mapping_is, mark_read_before, unread_for, unread_of, lemma_mappings_sorted_keys_unique,
    IdMappingRow, MessageRow, TaskHistoryRow,
};
use crate::db::opt_view;
use crate::konnect::{remote_message_id_text, remote_task_id_text, trim_end_slashes};
use crate::tasks::{history_appended, or_empty, task_row_lines};
use crate::api::{
    agent_response_of, history_response_of, message_response_of, message_responses, task_response_of,
};
use crate::api::auth::is_authorized;
use crate::cli::{agent_row_lines, environment_lines, mapping_row_lines, message_row_lines};
use crate::konnect::Environment;
use crate::telegram::reply::{assigned_records, TaskRecord};
use crate::db::{AgentRow, TaskRow};
use crate::model::backend_kind_of;
use crate::text::{
    ascii_lower, ascii_lower_seq, decimal, decimal_int, is_white_space, lemma_decimal_digits,
    lemma_decimal_injective, lemma_decimal_nonempty, trim_end_seq, trim_seq, trim_start_seq,
    has_no_tab, is_prefix, lemma_decimal_int_no_tab, lemma_tab_fields_plain, lemma_tab_fields_split,
    lemma_tab_joined_fields, tab_fields, tab_joined,
};

verus! {

broadcast use vstd::string::group_string_axioms;

/// Once the messages for `r` have been delivered (marked read), none is
/// unread for `r` any more: a second delivery gives nothing.
pub proof fn law_delivery_empties_inbox(s: Seq<MessageRow>, r: Seq<char>)
    ensures
        unread_of(mark_read_before(s, r, s.len() as int), r) == Seq::<MessageRow>::empty(),
{
    lemma_no_unread(mark_read_before(s, r, s.len() as int), r);
}

proof fn lemma_no_unread(s: Seq<MessageRow>, r: Seq<char>)
    requires
        forall|k: int| 0 <= k < s.len() ==> !unread_for(#[trigger] s[k], r),
    ensures
        unread_of(s, r) == Seq::<MessageRow>::empty(),
    decreases s.len(),
{
    if s.len() > 0 {
        let t = s.drop_last();
        assert forall|k: int| 0 <= k < t.len() implies !unread_for(#[trigger] t[k], r) by {
            assert(t[k] == s[k]);
        }
        lemma_no_unread(t, r);
        assert(!unread_for(s[s.len() - 1], r));
    }
}

/// Delivery leaves every other recipient's unread messages as they were.
pub proof fn law_delivery_spares_others(s: Seq<MessageRow>, r: Seq<char>, other: Seq<char>)
    requires
        other != r,
    ensures
        unread_of(mark_read_before(s, r, s.len() as int), other) == unread_of(s, other),
{
    lemma_unread_same(mark_read_before(s, r, s.len() as int), s, other);
}

proof fn lemma_unread_same(a: Seq<MessageRow>, b: Seq<MessageRow>, r: Seq<char>)
    requires
        a.len() == b.len(),
        forall|k: int| 0 <= k < a.len() ==> unread_for(#[trigger] a[k], r) == unread_for(b[k], r),
        forall|k: int| 0 <= k < a.len() && unread_for(#[trigger] a[k], r) ==> a[k] == b[k],
    ensures
        unread_of(a, r) == unread_of(b, r),
    decreases a.len(),
{
    if a.len() > 0 {
        let (ta, tb) = (a.drop_last(), b.drop_last());
        assert forall|k: int| 0 <= k < ta.len() implies unread_for(#[trigger] ta[k], r)
            == unread_for(tb[k], r) by {
            assert(ta[k] == a[k] && tb[k] == b[k]);
        }
        assert forall|k: int| 0 <= k < ta.len() && unread_for(#[trigger] ta[k], r) implies ta[k]
            == tb[k] by {
            assert(ta[k] == a[k] && tb[k] == b[k]);
        }
        lemma_unread_same(ta, tb, r);
        let n = a.len() - 1;
        assert(unread_for(a[n], r) == unread_for(b[n], r));
    }
}

/// `n` is the mapping table after `(kind, local)` was pointed at `remote`
/// (what `record_id_mapping` does to it).
pub open spec fn mapping_recorded(
    o: Seq<IdMappingRow>,
    n: Seq<IdMappingRow>,
    kind: Seq<char>,
    local: Seq<char>,
    remote: Seq<char>,
    source: Option<Seq<char>>,
    now: Seq<char>,
) -> bool {
    &&& has_mapping(o, kind, local) ==> exists|k: int|
        0 <= k < o.len() && mapping_is(o[k], kind, local) && n == o.update(k, n[k])
            && is_mapping_update(n[k], o[k], remote, source, now)
    &&& !has_mapping(o, kind, local) ==> exists|p: int|
        0 <= p <= o.len() && n == o.insert(p, n[p]) && is_new_mapping(
            n[p],
            kind,
            local,
            remote,
            source,
            now,
        )
}

/// After a mapping is recorded, looking up its local entity finds exactly
/// the remote id just recorded.
pub proof fn law_lookup_finds_recorded_mapping(
    o: Seq<IdMappingRow>,
    n: Seq<IdMappingRow>,
    kind: Seq<char>,
    local: Seq<char>,
    remote: Seq<char>,
    source: Option<Seq<char>>,
    now: Seq<char>,
)
    requires
        mappings_sorted(n),
        mapping_recorded(o, n, kind, local, remote, source, now),
    ensures
        has_mapping(n, kind, local),
        forall|k: int| 0 <= k < n.len() && mapping_is(#[trigger] n[k], kind, local) ==> n[k].remote_id@ == remote
            && opt_view(n[k].remote_source) == source,
{
    lemma_mappings_sorted_keys_unique(n);
    let j: int = if has_mapping(o, kind, local) {
        choose|k: int|
            0 <= k < o.len() && mapping_is(o[k], kind, local) && n == o.update(k, n[k])
                && is_mapping_update(n[k], o[k], remote, source, now)
    } else {
        choose|p: int|
            0 <= p <= o.len() && n == o.insert(p, n[p]) && is_new_mapping(
                n[p],
                kind,
                local,
                remote,
                source,
                now,
            )
    };
    assert(0 <= j < n.len() && mapping_is(n[j], kind, local) && n[j].remote_id@ == remote
        && opt_view(n[j].remote_source) == source);
    assert forall|k: int| 0 <= k < n.len() && mapping_is(#[trigger] n[k], kind, local) implies n[k].remote_id@ == remote
        && opt_view(n[k].remote_source) == source by {
        if k != j {
            assert(n[k].entity_kind@ != n[j].entity_kind@ || n[k].local_id@ != n[j].local_id@);
        }
    }
}

/// One call of `record_id_mapping`: entity kind, local id, remote id,
/// remote source and time.
pub type MappingCall = (Seq<char>, Seq<char>, Seq<char>, Option<Seq<char>>, Seq<char>);

/// `states[i + 1]` is the mapping table after `calls[i]` was recorded on
/// `states[i]`.
pub open spec fn recordings(states: Seq<Seq<IdMappingRow>>, calls: Seq<MappingCall>) -> bool {
    &&& states.len() == calls.len() + 1
    &&& forall|i: int|
        0 <= i < calls.len() ==> mapping_recorded(
            states[i],
            states[i + 1],
            (#[trigger] calls[i]).0,
            calls[i].1,
            calls[i].2,
            calls[i].3,
            calls[i].4,
        )
}

/// `calls[i]` is the last call for the entity `(kind, local)`.
pub open spec fn latest_call(calls: Seq<MappingCall>, i: int, kind: Seq<char>, local: Seq<char>) -> bool {
    &&& 0 <= i < calls.len()
    &&& calls[i].0 == kind && calls[i].1 == local
    &&& forall|i2: int| i < i2 < calls.len() ==> !((#[trigger] calls[i2]).0 == kind && calls[i2].1 == local)
}

proof fn lemma_recorded_keeps_others(
    o: Seq<IdMappingRow>,
    n: Seq<IdMappingRow>,
    kind: Seq<char>,
    local: Seq<char>,
    remote: Seq<char>,
    source: Option<Seq<char>>,
    now: Seq<char>,
)
    requires
        mapping_recorded(o, n, kind, local, remote, source, now),
    ensures
        forall|r: int| 0 <= r < n.len() && !mapping_is(#[trigger] n[r], kind, local) ==> exists|q: int|
            0 <= q < o.len() && o[q] == n[r],
        forall|k2: Seq<char>, l2: Seq<char>| #[trigger] has_mapping(o, k2, l2) ==> has_mapping(n, k2, l2),
{
    if has_mapping(o, kind, local) {
        let k = choose|k: int|
            0 <= k < o.len() && mapping_is(o[k], kind, local) && n == o.update(k, n[k])
                && is_mapping_update(n[k], o[k], remote, source, now);
        assert forall|r: int| 0 <= r < n.len() && !mapping_is(#[trigger] n[r], kind, local) implies exists|q: int|
            0 <= q < o.len() && o[q] == n[r] by {
            assert(r != k);
            assert(o[r] == n[r]);
        }
        assert forall|k2: Seq<char>, l2: Seq<char>| #[trigger] has_mapping(o, k2, l2) implies has_mapping(n, k2, l2) by {
            let q = choose|q: int| 0 <= q < o.len() && mapping_is(o[q], k2, l2);
            assert(mapping_is(n[q], k2, l2));
        }
    } else {
        let p = choose|p: int|
            0 <= p <= o.len() && n == o.insert(p, n[p]) && is_new_mapping(n[p], kind, local, remote, source, now);
        assert forall|r: int| 0 <= r < n.len() && !mapping_is(#[trigger] n[r], kind, local) implies exists|q: int|
            0 <= q < o.len() && o[q] == n[r] by {
            if r < p {
                assert(o[r] == n[r]);
            } else {
                assert(r != p);
                assert(o[r - 1] == n[r]);
            }
        }
        assert forall|k2: Seq<char>, l2: Seq<char>| #[trigger] has_mapping(o, k2, l2) implies has_mapping(n, k2, l2) by {
            let q = choose|q: int| 0 <= q < o.len() && mapping_is(o[q], k2, l2);
            if q < p {
                assert(mapping_is(n[q], k2, l2));
            } else {
                assert(mapping_is(n[q + 1], k2, l2));
            }
        }
    }
}

/// After any run of recordings on an empty mapping table, every recorded
/// entity has exactly one mapping, and every mapping holds the remote id and
/// source of the latest recording for its entity.
pub proof fn law_mappings_follow_latest_recording(states: Seq<Seq<IdMappingRow>>, calls: Seq<MappingCall>)
    requires
        recordings(states, calls),
        states[0].len() == 0,
        forall|i: int| 0 <= i < states.len() ==> mappings_sorted(#[trigger] states[i]),
    ensures
        forall|j: int| 0 <= j < calls.len() ==> has_mapping(states.last(), (#[trigger] calls[j]).0, calls[j].1),
        forall|r: int|
            0 <= r < states.last().len() ==> exists|i: int|
                latest_call(calls, i, (#[trigger] states.last()[r]).entity_kind@, states.last()[r].local_id@)
                    && states.last()[r].remote_id@ == calls[i].2 && opt_view(states.last()[r].remote_source)
                    == calls[i].3,
        forall|a: int, b: int|
            0 <= a < states.last().len() && 0 <= b < states.last().len() && a != b ==> ((#[trigger] states.last()[a]).entity_kind@
                != (#[trigger] states.last()[b]).entity_kind@ || states.last()[a].local_id@ != states.last()[b].local_id@),
    decreases calls.len(),
{
    let last = states.last();
    lemma_mappings_sorted_keys_unique(last);
    if calls.len() == 0 {
        return;
    }
    let n = calls.len() - 1;
    let sub_states = states.drop_last();
    let sub_calls = calls.drop_last();
    assert forall|i: int| 0 <= i < sub_calls.len() implies mapping_recorded(
        sub_states[i],
        sub_states[i + 1],
        (#[trigger] sub_calls[i]).0,
        sub_calls[i].1,
        sub_calls[i].2,
        sub_calls[i].3,
        sub_calls[i].4,
    ) by {
        assert(sub_calls[i] == calls[i]);
        assert(sub_states[i] == states[i] && sub_states[i + 1] == states[i + 1]);
    }
    assert forall|i: int| 0 <= i < sub_states.len() implies mappings_sorted(#[trigger] sub_states[i]) by {
        assert(sub_states[i] == states[i]);
    }
    law_mappings_follow_latest_recording(sub_states, sub_calls);
    let o = states[n];
    assert(sub_states.last() == o);
    let c = calls[n];
    assert(mapping_recorded(o, last, c.0, c.1, c.2, c.3, c.4));
    law_lookup_finds_recorded_mapping(o, last, c.0, c.1, c.2, c.3, c.4);
    lemma_recorded_keeps_others(o, last, c.0, c.1, c.2, c.3, c.4);
    assert forall|j: int| 0 <= j < calls.len() implies has_mapping(last, (#[trigger] calls[j]).0, calls[j].1) by {
        if j < n {
            assert(sub_calls[j] == calls[j]);
            assert(has_mapping(o, calls[j].0, calls[j].1));
        }
    }
    assert forall|r: int| 0 <= r < last.len() implies exists|i: int|
        latest_call(calls, i, (#[trigger] last[r]).entity_kind@, last[r].local_id@)
            && last[r].remote_id@ == calls[i].2 && opt_view(last[r].remote_source) == calls[i].3 by {
        let row = last[r];
        if mapping_is(row, c.0, c.1) {
            assert(latest_call(calls, n, row.entity_kind@, row.local_id@));
        } else {
            let q = choose|q: int| 0 <= q < o.len() && o[q] == row;
            let i = choose|i: int|
                latest_call(sub_calls, i, o[q].entity_kind@, o[q].local_id@)
                    && o[q].remote_id@ == sub_calls[i].2 && opt_view(o[q].remote_source) == sub_calls[i].3;
            assert(calls[i] == sub_calls[i]);
            assert forall|i2: int| i < i2 < calls.len() implies !((#[trigger] calls[i2]).0 == row.entity_kind@
                && calls[i2].1 == row.local_id@) by {
                if i2 < n {
                    assert(calls[i2] == sub_calls[i2]);
                }
            }
            assert(latest_call(calls, i, row.entity_kind@, row.local_id@));
        }
    }
}

/// Every task transition adds exactly one event to that task's history and
/// leaves every other task's history as it was.
pub proof fn law_transition_adds_one_event(
    o: Seq<TaskHistoryRow>,
    n: Seq<TaskHistoryRow>,
    task_id: int,
    event: Seq<char>,
    actor: Seq<char>,
    now: Seq<char>,
    other: int,
)
    requires
        history_appended(o, n, task_id, event, actor, now),
        other != task_id,
    ensures
        history_of(n, task_id).len() == history_of(o, task_id).len() + 1,
        history_of(n, task_id).last().event@ == event,
        history_of(n, task_id).last().actor@ == actor,
        history_of(n, other) == history_of(o, other),
{
    assert(n.drop_last() == o);
    assert(n.last().task_id == task_id);
}

/// Mirrored ids never collide: different messages, or different tasks, get
/// different remote ids, and no message shares one with a task.
pub proof fn law_remote_ids_distinct(a: int, b: int)
    ensures
        a != b ==> remote_message_id_text(a) != remote_message_id_text(b),
        a != b ==> remote_task_id_text(a) != remote_task_id_text(b),
        remote_message_id_text(a) != remote_task_id_text(b),
{
    if a != b {
        lemma_decimal_int_injective(a, b);
        if remote_message_id_text(a) == remote_message_id_text(b) {
            let p = "ghostteam-msg-"@;
            assert(remote_message_id_text(a).skip(p.len() as int) =~= decimal_int(a));
            assert(remote_message_id_text(b).skip(p.len() as int) =~= decimal_int(b));
        }
        if remote_task_id_text(a) == remote_task_id_text(b) {
            let p = "ghostteam-task-"@;
            assert(remote_task_id_text(a).skip(p.len() as int) =~= decimal_int(a));
            assert(remote_task_id_text(b).skip(p.len() as int) =~= decimal_int(b));
        }
    }
    reveal_strlit("ghostteam-msg-");
    reveal_strlit("ghostteam-task-");
    let m = remote_message_id_text(a);
    let t = remote_task_id_text(b);
    assert(m[10] == "ghostteam-msg-"@[10]);
    assert(t[10] == "ghostteam-task-"@[10]);
    assert("ghostteam-msg-"@[10] == 'm');
    assert("ghostteam-task-"@[10] == 't');
}

proof fn lemma_decimal_int_injective(a: int, b: int)
    requires
        a != b,
    ensures
        decimal_int(a) != decimal_int(b),
{
    if a >= 0 && b >= 0 {
        if decimal_int(a) == decimal_int(b) {
            lemma_decimal_injective(a as nat, b as nat);
        }
    } else if a < 0 && b < 0 {
        if decimal_int(a) == decimal_int(b) {
            assert(decimal_int(a).drop_first() =~= decimal((-a) as nat));
            assert(decimal_int(b).drop_first() =~= decimal((-b) as nat));
            lemma_decimal_injective((-a) as nat, (-b) as nat);
        }
    } else if a < 0 {
        lemma_decimal_nonempty(b as nat);
        lemma_decimal_digits(b as nat);
        assert(decimal_int(a)[0] == '-');
        assert('0' <= decimal(b as nat)[0]);
    } else {
        lemma_decimal_nonempty(a as nat);
        lemma_decimal_digits(a as nat);
        assert(decimal_int(b)[0] == '-');
        assert('0' <= decimal(a as nat)[0]);
    }
}

/// An address without trailing slashes has none to drop: normalising it
/// again changes nothing.
pub proof fn law_normalize_idempotent(s: Seq<char>)
    ensures
        trim_end_slashes(trim_end_slashes(s)) == trim_end_slashes(s),
    decreases s.len(),
{
    if s.len() > 0 && s.last() == '/' {
        law_normalize_idempotent(s.drop_last());
    }
}

/// An agent that asks for an id nobody holds gets exactly that id.
pub proof fn law_join_keeps_free_id(agents: Seq<crate::db::AgentRow>, requested: Seq<char>, k: nat)
    requires
        !has_agent(agents, requested),
        first_free(agents, requested, k),
    ensures
        candidate(requested, k) == requested,
{
    if k > 1 {
        assert(has_agent(agents, candidate(requested, 1)));
    }
}

/// The id a join picks is determined: of the ids `requested`,
/// `requested-2`, `requested-3`, ... it is the first that no agent holds.
pub proof fn law_join_picks_first_free(agents: Seq<crate::db::AgentRow>, requested: Seq<char>, a: nat, b: nat)
    requires
        first_free(agents, requested, a),
        first_free(agents, requested, b),
    ensures
        a == b,
{
    if a < b {
        assert(has_agent(agents, candidate(requested, a)));
    } else if b < a {
        assert(has_agent(agents, candidate(requested, b)));
    }
}

/// Leaving undoes joining: when an agent joins and then leaves under the id
/// it got, the agent table is as it was before the join.
pub proof fn law_leave_undoes_join(
    before: crate::db::Workspace,
    joined: crate::db::Workspace,
    after: crate::db::Workspace,
    requested: Seq<char>,
    role: Seq<char>,
    backend: Seq<char>,
    now: Seq<char>,
    got: Seq<char>,
)
    requires
        joined.wf(),
        crate::cli::agent_joined(before, joined, requested, role, backend, now, got),
        crate::cli::agent_left(joined, after, got),
    ensures
        after.agents() == before.agents(),
{
    let p = choose|p: int|
        0 <= p <= before.agents().len() && joined.agents() == before.agents().insert(p, joined.agents()[p])
            && joined.agents()[p].id@ == got && joined.agents()[p].role@ == role
            && joined.agents()[p].backend@ == backend && crate::db::opt_view(joined.agents()[p].joined_at) == Some(now);
    assert(has_agent(joined.agents(), got));
    let k = choose|k: int|
        0 <= k < joined.agents().len() && joined.agents()[k].id@ == got && after.agents() == joined.agents().remove(k);
    assert(k == p);
    assert(after.agents() =~= before.agents());
}

proof fn lemma_trim_start_shape(s: Seq<char>)
    ensures
        trim_start_seq(s).len() == 0 || !is_white_space(trim_start_seq(s)[0]),
        trim_start_seq(s).len() <= s.len(),
    decreases s.len(),
{
    if s.len() > 0 && is_white_space(s[0]) {
        lemma_trim_start_shape(s.drop_first());
    }
}

proof fn lemma_trim_end_shape(s: Seq<char>)
    requires
        s.len() == 0 || !is_white_space(s[0]),
    ensures
        trim_end_seq(s).len() == 0 || (!is_white_space(trim_end_seq(s)[0]) && !is_white_space(
            trim_end_seq(s).last(),
        )),
    decreases s.len(),
{
    if s.len() > 0 && is_white_space(s.last()) {
        let t = s.drop_last();
        if t.len() > 0 {
            assert(t[0] == s[0]);
        }
        lemma_trim_end_shape(t);
    }
}

/// What a backend name selects does not change when the name is trimmed
/// and folded to ASCII lower case first: case and surrounding white space
/// never matter.
pub proof fn law_backend_name_normalized(name: Seq<char>)
    ensures
        backend_kind_of(ascii_lower_seq(trim_seq(name))) == backend_kind_of(name),
{
    let t = trim_seq(name);
    lemma_trim_start_shape(name);
    lemma_trim_end_shape(trim_start_seq(name));
    let l = ascii_lower_seq(t);
    assert forall|i: int| 0 <= i < t.len() implies is_white_space(#[trigger] l[i]) == is_white_space(t[i]) by {
        let c = t[i];
        if 'A' <= c && c <= 'Z' {
            assert(!is_white_space(c));
            assert('a' <= l[i] && l[i] <= 'z');
        }
    }
    if l.len() > 0 {
        assert(!is_white_space(l[0]));
        assert(!is_white_space(l.last()));
    }
    assert(trim_start_seq(l) == l);
    assert(trim_end_seq(l) == l);
    assert forall|i: int| 0 <= i < l.len() implies #[trigger] ascii_lower(l[i]) == l[i] by {
        let c = t[i];
        if 'A' <= c && c <= 'Z' {
            assert('a' <= l[i] && l[i] <= 'z');
        }
    }
    assert(ascii_lower_seq(trim_seq(l)) =~= l);
}

// ---------------------------------------------------------------------------
// What the API, the CLI and the Telegram replies show of what is stored
// ---------------------------------------------------------------------------
/// A request is let through exactly when it carries a key, the key file
/// could be read, and one of the listed keys (the first as much as any
/// other) is the key it carries.
pub proof fn law_authorized_iff_key_listed(provided: Option<Seq<char>>, keys: Option<Seq<Seq<char>>>)
    ensures
        is_authorized(provided, keys) <==> (provided is Some && keys is Some && exists|k: int|
            0 <= k < keys->0.len() && #[trigger] keys->0[k] == provided->0),
{
    if provided is Some && keys is Some {
        let p = provided->0;
        let ks = keys->0;
        if exists|k: int| 0 <= k < ks.len() && #[trigger] ks[k] == p {
            let k = choose|k: int| 0 <= k < ks.len() && #[trigger] ks[k] == p;
            assert(ks.contains(p));
        }
    }
}

/// Every message of `s` that is unread for `r` is in `s`, addressed to `r`
/// and unread.
proof fn lemma_unread_of_members(s: Seq<MessageRow>, r: Seq<char>)
    ensures
        forall|i: int| 0 <= i < unread_of(s, r).len() ==> {
            &&& (#[trigger] unread_of(s, r)[i]).recipient@ == r
            &&& unread_of(s, r)[i].read == 0
            &&& s.contains(unread_of(s, r)[i])
        },
    decreases s.len(),
{
    if s.len() > 0 {
        let p = s.drop_last();
        lemma_unread_of_members(p, r);
        let u = unread_of(s, r);
        assert forall|i: int| 0 <= i < u.len() implies {
            &&& (#[trigger] u[i]).recipient@ == r
            &&& u[i].read == 0
            &&& s.contains(u[i])
        } by {
            if i < unread_of(p, r).len() {
                assert(u[i] == unread_of(p, r)[i]);
                let j = choose|j: int| 0 <= j < p.len() && p[j] == u[i];
                assert(s[j] == u[i]);
            } else {
                assert(u[i] == s.last());
                assert(s[s.len() - 1] == u[i]);
            }
        }
    }
}

/// `GET /messages/:agent` shows each unread message of the agent as it was
/// stored: sent by its sender, addressed to the agent, with its id, body
/// and time, and unread.
pub proof fn law_unread_listing_shows_stored_messages(s: Seq<MessageRow>, agent: Seq<char>)
    ensures
        message_responses(unread_of(s, agent)).len() == unread_of(s, agent).len(),
        forall|i: int| 0 <= i < unread_of(s, agent).len() ==> {
            &&& (#[trigger] message_responses(unread_of(s, agent))[i]).sender == unread_of(s, agent)[i].sender
            &&& message_responses(unread_of(s, agent))[i].recipient == unread_of(s, agent)[i].recipient
            &&& message_responses(unread_of(s, agent))[i].recipient@ == agent
            &&& message_responses(unread_of(s, agent))[i].id == unread_of(s, agent)[i].id
            &&& message_responses(unread_of(s, agent))[i].body == unread_of(s, agent)[i].body
            &&& message_responses(unread_of(s, agent))[i].created_at == unread_of(s, agent)[i].created_at
            &&& message_responses(unread_of(s, agent))[i].read == 0
            &&& s.contains(unread_of(s, agent)[i])
        },
{
    lemma_unread_of_members(s, agent);
}

/// Whether a task is assigned to `agent`.
pub open spec fn is_assigned_to(t: TaskRecord, agent: Seq<char>) -> bool {
    t.assignee matches Some(a) && a@ == agent
}

/// The `/status <agent>` reply lists, and counts, exactly the tasks whose
/// assignee is the agent, in the order the API gave them.
pub proof fn law_status_lists_exactly_assigned_tasks(ts: Seq<TaskRecord>, agent: Seq<char>)
    ensures
        assigned_records(ts, agent) == ts.filter(|t: TaskRecord| is_assigned_to(t, agent)),
        forall|i: int| 0 <= i < assigned_records(ts, agent).len() ==> is_assigned_to(
            #[trigger] assigned_records(ts, agent)[i],
            agent,
        ),
        forall|k: int| 0 <= k < ts.len() && is_assigned_to(#[trigger] ts[k], agent) ==> assigned_records(
            ts,
            agent,
        ).contains(ts[k]),
    decreases ts.len(),
{
    reveal(Seq::filter);
    let pred = |t: TaskRecord| is_assigned_to(t, agent);
    if ts.len() > 0 {
        let p = ts.drop_last();
        law_status_lists_exactly_assigned_tasks(p, agent);
        let u = assigned_records(ts, agent);
        let up = assigned_records(p, agent);
        assert(u =~= ts.filter(pred));
        assert forall|i: int| 0 <= i < u.len() implies is_assigned_to(#[trigger] u[i], agent) by {
            if i < up.len() {
                assert(u[i] == up[i]);
            }
        }
        assert forall|k: int| 0 <= k < ts.len() && is_assigned_to(#[trigger] ts[k], agent) implies u.contains(
            ts[k],
        ) by {
            if k < p.len() {
                assert(p[k] == ts[k]);
                let j = choose|j: int| 0 <= j < up.len() && up[j] == p[k];
                assert(u[j] == up[j]);
            } else {
                assert(u[u.len() - 1] == ts[k]);
            }
        }
    } else {
        assert(assigned_records(ts, agent) =~= ts.filter(pred));
    }
}

/// Each line `agents` prints begins with that agent's id and a tab; when
/// no field holds a tab, its tab-separated fields are the agent's id, role,
/// backend and join time, in that order.
pub proof fn law_agent_lines_show_agent_fields(agents: Seq<AgentRow>, i: int)
    requires
        0 <= i < agents.len(),
    ensures
        agent_row_lines(agents).len() == agents.len(),
        is_prefix(agents[i].id@ + seq!['\t'], agent_row_lines(agents)[i]),
        has_no_tab(agents[i].id@) && has_no_tab(agents[i].role@) && has_no_tab(agents[i].backend@)
            && has_no_tab(or_empty(opt_view(agents[i].joined_at))) ==> tab_fields(agent_row_lines(agents)[i])
            == seq![
            agents[i].id@,
            agents[i].role@,
            agents[i].backend@,
            or_empty(opt_view(agents[i].joined_at)),
        ],
{
    reveal_strlit("\t");
    let a = agents[i];
    let t = seq!['\t'];
    assert("\t"@ =~= t);
    let (f0, f1, f2, f3) = (a.id@, a.role@, a.backend@, or_empty(opt_view(a.joined_at)));
    let l = agent_row_lines(agents)[i];
    assert(l == f0 + t + f1 + t + f2 + t + f3);
    assert(l.take((f0.len() + 1) as int) =~= f0 + t);
    if has_no_tab(f0) && has_no_tab(f1) && has_no_tab(f2) && has_no_tab(f3) {
        lemma_tab_fields_plain(f0);
        lemma_tab_fields_plain(f1);
        lemma_tab_fields_plain(f2);
        lemma_tab_fields_plain(f3);
        lemma_tab_fields_split(f0, f1);
        lemma_tab_fields_split(f0 + t + f1, f2);
        lemma_tab_fields_split(f0 + t + f1 + t + f2, f3);
        assert(tab_fields(l) =~= seq![f0, f1, f2, f3]);
    }
}

/// Each line `konnect-mappings` prints begins with that mapping's entity
/// kind, local id and remote id, each followed by a tab; when no field holds
/// a tab, its tab-separated fields are the kind, local id, remote id,
/// source, creation and update times, in that order.
pub proof fn law_mapping_lines_show_mapping_fields(mappings: Seq<IdMappingRow>, i: int)
    requires
        0 <= i < mappings.len(),
    ensures
        mapping_row_lines(mappings).len() == mappings.len(),
        is_prefix(
            mappings[i].entity_kind@ + seq!['\t'] + mappings[i].local_id@ + seq!['\t'] + mappings[i].remote_id@
                + seq!['\t'],
            mapping_row_lines(mappings)[i],
        ),
        has_no_tab(mappings[i].entity_kind@) && has_no_tab(mappings[i].local_id@) && has_no_tab(
            mappings[i].remote_id@,
        ) && has_no_tab(or_empty(opt_view(mappings[i].remote_source))) && has_no_tab(
            or_empty(opt_view(mappings[i].created_at)),
        ) && has_no_tab(or_empty(opt_view(mappings[i].updated_at))) ==> tab_fields(
            mapping_row_lines(mappings)[i],
        ) == seq![
            mappings[i].entity_kind@,
            mappings[i].local_id@,
            mappings[i].remote_id@,
            or_empty(opt_view(mappings[i].remote_source)),
            or_empty(opt_view(mappings[i].created_at)),
            or_empty(opt_view(mappings[i].updated_at)),
        ],
{
    reveal_strlit("\t");
    let m = mappings[i];
    let t = seq!['\t'];
    assert("\t"@ =~= t);
    let f0 = m.entity_kind@;
    let f1 = m.local_id@;
    let f2 = m.remote_id@;
    let f3 = or_empty(opt_view(m.remote_source));
    let f4 = or_empty(opt_view(m.created_at));
    let f5 = or_empty(opt_view(m.updated_at));
    let l = mapping_row_lines(mappings)[i];
    assert(l == f0 + t + f1 + t + f2 + t + f3 + t + f4 + t + f5);
    let p = f0 + t + f1 + t + f2 + t;
    assert(l.take(p.len() as int) =~= p);
    if has_no_tab(f0) && has_no_tab(f1) && has_no_tab(f2) && has_no_tab(f3) && has_no_tab(f4) && has_no_tab(
        f5,
    ) {
        lemma_tab_fields_plain(f0);
        lemma_tab_fields_plain(f1);
        lemma_tab_fields_plain(f2);
        lemma_tab_fields_plain(f3);
        lemma_tab_fields_plain(f4);
        lemma_tab_fields_plain(f5);
        lemma_tab_fields_split(f0, f1);
        lemma_tab_fields_split(f0 + t + f1, f2);
        lemma_tab_fields_split(f0 + t + f1 + t + f2, f3);
        lemma_tab_fields_split(f0 + t + f1 + t + f2 + t + f3, f4);
        lemma_tab_fields_split(f0 + t + f1 + t + f2 + t + f3 + t + f4, f5);
        assert(tab_fields(l) =~= seq![f0, f1, f2, f3, f4, f5]);
    }
}

/// After a mapping is recorded, `konnect-mappings` shows a line for the
/// local entity that carries the remote id just recorded, right after the
/// entity kind and local id.
pub proof fn law_listing_shows_recorded_mapping(
    o: Seq<IdMappingRow>,
    n: Seq<IdMappingRow>,
    kind: Seq<char>,
    local: Seq<char>,
    remote: Seq<char>,
    source: Option<Seq<char>>,
    now: Seq<char>,
)
    requires
        mappings_sorted(n),
        mapping_recorded(o, n, kind, local, remote, source, now),
    ensures
        exists|i: int|
            0 <= i < mapping_row_lines(n).len() && is_prefix(
                kind + seq!['\t'] + local + seq!['\t'] + remote + seq!['\t'],
                #[trigger] mapping_row_lines(n)[i],
            ),
{
    law_lookup_finds_recorded_mapping(o, n, kind, local, remote, source, now);
    let i = choose|k: int| 0 <= k < n.len() && mapping_is(n[k], kind, local);
    law_mapping_lines_show_mapping_fields(n, i);
    assert(n[i].entity_kind@ == kind && n[i].local_id@ == local && n[i].remote_id@ == remote);
}

/// The API shows every stored row with the row's own values: an agent's id,
/// role, backend and join time; a message's id, sender, recipient, body,
/// time and read flag; a task's fields; a history event's fields.
pub proof fn law_api_responses_show_stored_rows(a: AgentRow, m: MessageRow, t: TaskRow, h: TaskHistoryRow)
    ensures
        agent_response_of(a).id == a.id && agent_response_of(a).role == a.role
            && agent_response_of(a).backend == a.backend && agent_response_of(a).joined_at == a.joined_at,
        message_response_of(m).id == m.id && message_response_of(m).sender == m.sender
            && message_response_of(m).recipient == m.recipient && message_response_of(m).body == m.body
            && message_response_of(m).created_at == m.created_at && message_response_of(m).read == m.read,
        task_response_of(t).id == t.id && task_response_of(t).creator == t.creator
            && task_response_of(t).assignee == t.assignee && task_response_of(t).description == t.description
            && task_response_of(t).status == t.status && task_response_of(t).result == t.result
            && task_response_of(t).created_at == t.created_at && task_response_of(t).updated_at == t.updated_at,
        history_response_of(h).id == h.id && history_response_of(h).task_id == h.task_id
            && history_response_of(h).event == h.event && history_response_of(h).actor == h.actor
            && history_response_of(h).at == h.at,
{
}

/// Each line `receive` prints is the message's id, sender, recipient, body,
/// time and read flag, tab-separated, when none of them holds a tab.
pub proof fn law_receive_lines_show_message_fields(msgs: Seq<MessageRow>, i: int)
    requires
        0 <= i < msgs.len(),
        has_no_tab(msgs[i].sender@),
        has_no_tab(msgs[i].recipient@),
        has_no_tab(msgs[i].body@),
        has_no_tab(or_empty(opt_view(msgs[i].created_at))),
    ensures
        message_row_lines(msgs).len() == msgs.len(),
        tab_fields(message_row_lines(msgs)[i]) == seq![
            decimal_int(msgs[i].id as int),
            msgs[i].sender@,
            msgs[i].recipient@,
            msgs[i].body@,
            or_empty(opt_view(msgs[i].created_at)),
            decimal_int(msgs[i].read as int),
        ],
{
    reveal_strlit("\t");
    reveal_with_fuel(tab_joined, 7);
    let m = msgs[i];
    let fs = seq![
        decimal_int(m.id as int),
        m.sender@,
        m.recipient@,
        m.body@,
        or_empty(opt_view(m.created_at)),
        decimal_int(m.read as int),
    ];
    lemma_decimal_int_no_tab(m.id as int);
    lemma_decimal_int_no_tab(m.read as int);
    assert(tab_joined(fs) =~= message_row_lines(msgs)[i]);
    lemma_tab_joined_fields(fs);
}

/// Each line `task-list` prints is the task's id, creator, assignee,
/// description, status, result and times, tab-separated, when none of them
/// holds a tab.
pub proof fn law_task_lines_show_task_fields(tasks: Seq<TaskRow>, i: int)
    requires
        0 <= i < tasks.len(),
        has_no_tab(tasks[i].creator@),
        has_no_tab(or_empty(opt_view(tasks[i].assignee))),
        has_no_tab(tasks[i].description@),
        has_no_tab(tasks[i].status@),
        has_no_tab(or_empty(opt_view(tasks[i].result))),
        has_no_tab(or_empty(opt_view(tasks[i].created_at))),
        has_no_tab(or_empty(opt_view(tasks[i].updated_at))),
    ensures
        task_row_lines(tasks).len() == tasks.len(),
        tab_fields(task_row_lines(tasks)[i]) == seq![
            decimal_int(tasks[i].id as int),
            tasks[i].creator@,
            or_empty(opt_view(tasks[i].assignee)),
            tasks[i].description@,
            tasks[i].status@,
            or_empty(opt_view(tasks[i].result)),
            or_empty(opt_view(tasks[i].created_at)),
            or_empty(opt_view(tasks[i].updated_at)),
        ],
{
    reveal_strlit("\t");
    reveal_with_fuel(tab_joined, 9);
    let t = tasks[i];
    let fs = seq![
        decimal_int(t.id as int),
        t.creator@,
        or_empty(opt_view(t.assignee)),
        t.description@,
        t.status@,
        or_empty(opt_view(t.result)),
        or_empty(opt_view(t.created_at)),
        or_empty(opt_view(t.updated_at)),
    ];
    lemma_decimal_int_no_tab(t.id as int);
    assert(tab_joined(fs) =~= task_row_lines(tasks)[i]);
    lemma_tab_joined_fields(fs);
}

/// Each line `konnect-status` prints for a registration is its id, display
/// name, kind and status, tab-separated, when none of them holds a tab.
pub proof fn law_environment_lines_show_fields(envs: Seq<Environment>, i: int)
    requires
        0 <= i < envs.len(),
        has_no_tab(envs[i].id@),
        has_no_tab(envs[i].display_name@),
        has_no_tab(envs[i].kind@),
        has_no_tab(envs[i].status@),
    ensures
        environment_lines(envs).len() == envs.len(),
        tab_fields(environment_lines(envs)[i]) == seq![
            envs[i].id@,
            envs[i].display_name@,
            envs[i].kind@,
            envs[i].status@,
        ],
{
    reveal_strlit("\t");
    reveal_with_fuel(tab_joined, 5);
    let e = envs[i];
    let fs = seq![e.id@, e.display_name@, e.kind@, e.status@];
    assert(tab_joined(fs) =~= environment_lines(envs)[i]);
    lemma_tab_joined_fields(fs);
}

} // verus!
