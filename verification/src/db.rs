//! The GhostTeam workspace store: the agents, messages, tasks, task history
//! and KasperKonnect ID mappings that the workspace database holds, with the
//! semantics of the statements the CLI and the API run against it.
//!
//! Each table keeps the order its listing query uses, so a listing is a copy:
//! agents by `(joined_at, id)`, messages, tasks and task history by id,
//! mappings by `(entity_kind, local_id)` and mapping history by `recorded_at`
//! and then insertion order.  Row ids follow SQLite's rowid rule: a new row
//! gets one more than the largest id in its table, or 1 in an empty table.
use vstd::prelude::*;
use crate::order::{
    lemma_opt_lt_asymmetric, lemma_opt_lt_irreflexive, lemma_opt_lt_total,
    lemma_opt_lt_transitive, lemma_seq_lt_asymmetric, lemma_seq_lt_irreflexive,
    lemma_seq_lt_total, lemma_seq_lt_transitive, opt_lt, opt_str_lt, seq_lt, str_lt,
};
use crate::text::{
    decimal, format_u64, lemma_decimal_injective, lemma_decimal_nonempty, owned, push_char, str_eq,
};

verus! {

broadcast use vstd::string::group_string_axioms;

/// The characters of an optional string.
pub open spec fn opt_view(o: Option<String>) -> Option<Seq<char>> {
    match o {
        Some(s) => Some(s@),
        None => None,
    }
}

/// A copy of an optional string.
pub fn clone_opt(o: &Option<String>) -> (r: Option<String>)
    ensures
        r == *o,
{
    match o {
        Some(s) => Some(s.clone()),
        None => None,
    }
}

/// An owned optional string from an optional slice.
pub fn owned_opt(o: Option<&str>) -> (r: Option<String>)
    ensures
        opt_view(r) == match o {
            Some(s) => Some(s@),
            None => None::<Seq<char>>,
        },
{
    match o {
        Some(s) => Some(owned(s)),
        None => None,
    }
}

/// A registered agent.
#[derive(Debug)]
pub struct AgentRow {
    pub id: String,
    pub role: String,
    pub backend: String,
    pub joined_at: Option<String>,
}

/// A message between two agents; `read` is 0 until it has been delivered.
#[derive(Debug)]
pub struct MessageRow {
    pub id: i64,
    pub sender: String,
    pub recipient: String,
    pub body: String,
    pub created_at: Option<String>,
    pub read: i64,
}

/// A task handed from a creator to an assignee.
#[derive(Debug)]
pub struct TaskRow {
    pub id: i64,
    pub creator: String,
    pub assignee: Option<String>,
    pub description: String,
    pub status: String,
    pub result: Option<String>,
    pub created_at: Option<String>,
    pub updated_at: Option<String>,
}

/// One event in the life of a task.
#[derive(Debug)]
pub struct TaskHistoryRow {
    pub id: i64,
    pub task_id: i64,
    pub event: String,
    pub actor: String,
    pub at: Option<String>,
}

/// The remote id that a local entity is mirrored under.
#[derive(Debug)]
pub struct IdMappingRow {
    pub entity_kind: String,
    pub local_id: String,
    pub remote_id: String,
    pub remote_source: Option<String>,
    pub created_at: Option<String>,
    pub updated_at: Option<String>,
}

/// One recorded change of an ID mapping.
#[derive(Debug)]
pub struct IdMappingHistoryRow {
    pub entity_kind: String,
    pub local_id: String,
    pub remote_id: String,
    pub remote_source: Option<String>,
    pub action: String,
    pub recorded_at: Option<String>,
}

impl AgentRow {
    /// A copy of the row.
    pub fn duplicate(&self) -> (r: Self)
        ensures
            r == *self,
    {
        AgentRow {
            id: self.id.clone(),
            role: self.role.clone(),
            backend: self.backend.clone(),
            joined_at: clone_opt(&self.joined_at),
        }
    }
}

impl MessageRow {
    /// A copy of the row.
    pub fn duplicate(&self) -> (r: Self)
        ensures
            r == *self,
    {
        MessageRow {
            id: self.id,
            sender: self.sender.clone(),
            recipient: self.recipient.clone(),
            body: self.body.clone(),
            created_at: clone_opt(&self.created_at),
            read: self.read,
        }
    }
}

impl TaskRow {
    /// A copy of the row.
    pub fn duplicate(&self) -> (r: Self)
        ensures
            r == *self,
    {
        TaskRow {
            id: self.id,
            creator: self.creator.clone(),
            assignee: clone_opt(&self.assignee),
            description: self.description.clone(),
            status: self.status.clone(),
            result: clone_opt(&self.result),
            created_at: clone_opt(&self.created_at),
            updated_at: clone_opt(&self.updated_at),
        }
    }
}

impl TaskHistoryRow {
    /// A copy of the row.
    pub fn duplicate(&self) -> (r: Self)
        ensures
            r == *self,
    {
        TaskHistoryRow {
            id: self.id,
            task_id: self.task_id,
            event: self.event.clone(),
            actor: self.actor.clone(),
            at: clone_opt(&self.at),
        }
    }
}

impl IdMappingRow {
    /// A copy of the row.
    pub fn duplicate(&self) -> (r: Self)
        ensures
            r == *self,
    {
        IdMappingRow {
            entity_kind: self.entity_kind.clone(),
            local_id: self.local_id.clone(),
            remote_id: self.remote_id.clone(),
            remote_source: clone_opt(&self.remote_source),
            created_at: clone_opt(&self.created_at),
            updated_at: clone_opt(&self.updated_at),
        }
    }
}

impl IdMappingHistoryRow {
    /// A copy of the row.
    pub fn duplicate(&self) -> (r: Self)
        ensures
            r == *self,
    {
        IdMappingHistoryRow {
            entity_kind: self.entity_kind.clone(),
            local_id: self.local_id.clone(),
            remote_id: self.remote_id.clone(),
            remote_source: clone_opt(&self.remote_source),
            action: self.action.clone(),
            recorded_at: clone_opt(&self.recorded_at),
        }
    }
}

// ---------------------------------------------------------------------------
// Orders and table invariants
// ---------------------------------------------------------------------------
/// Agents are listed by `joined_at` and then by id.
pub open spec fn agent_before(a: AgentRow, b: AgentRow) -> bool {
    ||| opt_lt(opt_view(a.joined_at), opt_view(b.joined_at))
    ||| (opt_view(a.joined_at) == opt_view(b.joined_at) && seq_lt(a.id@, b.id@))
}

/// Mappings are listed by entity kind and then by local id.
pub open spec fn mapping_before(a: IdMappingRow, b: IdMappingRow) -> bool {
    ||| seq_lt(a.entity_kind@, b.entity_kind@)
    ||| (a.entity_kind@ == b.entity_kind@ && seq_lt(a.local_id@, b.local_id@))
}

pub open spec fn agents_sorted(s: Seq<AgentRow>) -> bool {
    forall|i: int, j: int| 0 <= i < j < s.len() ==> agent_before(#[trigger] s[i], #[trigger] s[j])
}

/// No two agents share an id.
pub open spec fn agent_ids_unique(s: Seq<AgentRow>) -> bool {
    forall|i: int, j: int|
        0 <= i < s.len() && 0 <= j < s.len() && i != j ==> (#[trigger] s[i]).id@ != (
        #[trigger] s[j]).id@
}

pub open spec fn mappings_sorted(s: Seq<IdMappingRow>) -> bool {
    forall|i: int, j: int|
        0 <= i < j < s.len() ==> mapping_before(#[trigger] s[i], #[trigger] s[j])
}

/// Mapping history is in non-decreasing `recorded_at` order.
pub open spec fn mapping_history_sorted(s: Seq<IdMappingHistoryRow>) -> bool {
    forall|i: int, j: int|
        0 <= i < j < s.len() ==> !opt_lt(
            opt_view(#[trigger] s[j].recorded_at),
            opt_view(#[trigger] s[i].recorded_at),
        )
}

pub open spec fn message_ids_increasing(s: Seq<MessageRow>) -> bool {
    forall|i: int, j: int| 0 <= i < j < s.len() ==> (#[trigger] s[i]).id < (#[trigger] s[j]).id
}

pub open spec fn task_ids_increasing(s: Seq<TaskRow>) -> bool {
    forall|i: int, j: int| 0 <= i < j < s.len() ==> (#[trigger] s[i]).id < (#[trigger] s[j]).id
}

pub open spec fn history_ids_increasing(s: Seq<TaskHistoryRow>) -> bool {
    forall|i: int, j: int| 0 <= i < j < s.len() ==> (#[trigger] s[i]).id < (#[trigger] s[j]).id
}

/// The id SQLite gives the next message.
pub open spec fn next_message_id(s: Seq<MessageRow>) -> int {
    if s.len() == 0 {
        1
    } else {
        s.last().id + 1
    }
}

/// The id SQLite gives the next task.
pub open spec fn next_task_id(s: Seq<TaskRow>) -> int {
    if s.len() == 0 {
        1
    } else {
        s.last().id + 1
    }
}

/// The id SQLite gives the next task history row.
pub open spec fn next_history_id(s: Seq<TaskHistoryRow>) -> int {
    if s.len() == 0 {
        1
    } else {
        s.last().id + 1
    }
}

/// Whether some agent has the given id.
pub open spec fn has_agent(s: Seq<AgentRow>, id: Seq<char>) -> bool {
    exists|k: int| 0 <= k < s.len() && (#[trigger] s[k]).id@ == id
}

// ---------------------------------------------------------------------------
// Order lemmas
// ---------------------------------------------------------------------------
pub proof fn lemma_agent_before_transitive(a: AgentRow, b: AgentRow, c: AgentRow)
    requires
        agent_before(a, b),
        agent_before(b, c),
    ensures
        agent_before(a, c),
{
    let (ja, jb, jc) = (opt_view(a.joined_at), opt_view(b.joined_at), opt_view(c.joined_at));
    if opt_lt(ja, jb) && opt_lt(jb, jc) {
        lemma_opt_lt_transitive(ja, jb, jc);
    } else if ja == jb && jb == jc {
        lemma_seq_lt_transitive(a.id@, b.id@, c.id@);
    }
}

pub proof fn lemma_agent_before_total(a: AgentRow, b: AgentRow)
    requires
        a.id@ != b.id@,
    ensures
        agent_before(a, b) || agent_before(b, a),
{
    lemma_opt_lt_total(opt_view(a.joined_at), opt_view(b.joined_at));
    lemma_seq_lt_total(a.id@, b.id@);
}

pub proof fn lemma_mapping_before_transitive(a: IdMappingRow, b: IdMappingRow, c: IdMappingRow)
    requires
        mapping_before(a, b),
        mapping_before(b, c),
    ensures
        mapping_before(a, c),
{
    if seq_lt(a.entity_kind@, b.entity_kind@) && seq_lt(b.entity_kind@, c.entity_kind@) {
        lemma_seq_lt_transitive(a.entity_kind@, b.entity_kind@, c.entity_kind@);
    } else if a.entity_kind@ == b.entity_kind@ && b.entity_kind@ == c.entity_kind@ {
        lemma_seq_lt_transitive(a.local_id@, b.local_id@, c.local_id@);
    }
}

pub proof fn lemma_mapping_before_total(a: IdMappingRow, b: IdMappingRow)
    requires
        a.entity_kind@ != b.entity_kind@ || a.local_id@ != b.local_id@,
    ensures
        mapping_before(a, b) || mapping_before(b, a),
{
    lemma_seq_lt_total(a.entity_kind@, b.entity_kind@);
    lemma_seq_lt_total(a.local_id@, b.local_id@);
}

pub proof fn lemma_mapping_before_keys_differ(a: IdMappingRow, b: IdMappingRow)
    requires
        mapping_before(a, b),
    ensures
        a.entity_kind@ != b.entity_kind@ || a.local_id@ != b.local_id@,
        !mapping_before(b, a),
{
    lemma_seq_lt_irreflexive(a.entity_kind@);
    lemma_seq_lt_irreflexive(a.local_id@);
    lemma_seq_lt_asymmetric(a.entity_kind@, b.entity_kind@);
    lemma_seq_lt_asymmetric(a.local_id@, b.local_id@);
}

/// In a sorted mapping table `(entity_kind, local_id)` keys are distinct.
pub proof fn lemma_mappings_sorted_keys_unique(s: Seq<IdMappingRow>)
    requires
        mappings_sorted(s),
    ensures
        forall|i: int, j: int|
            0 <= i < s.len() && 0 <= j < s.len() && i != j ==> ((#[trigger] s[i]).entity_kind@
                != (#[trigger] s[j]).entity_kind@ || s[i].local_id@ != s[j].local_id@),
{
    assert forall|i: int, j: int| 0 <= i < s.len() && 0 <= j < s.len() && i != j implies ((
    #[trigger] s[i]).entity_kind@ != (#[trigger] s[j]).entity_kind@ || s[i].local_id@
        != s[j].local_id@) by {
        if i < j {
            lemma_mapping_before_keys_differ(s[i], s[j]);
        } else {
            lemma_mapping_before_keys_differ(s[j], s[i]);
        }
    }
}

// ---------------------------------------------------------------------------
// The workspace
// ---------------------------------------------------------------------------
/// The contents of a GhostTeam workspace.
pub struct Workspace {
    agents: Vec<AgentRow>,
    messages: Vec<MessageRow>,
    tasks: Vec<TaskRow>,
    task_history: Vec<TaskHistoryRow>,
    mappings: Vec<IdMappingRow>,
    mapping_history: Vec<IdMappingHistoryRow>,
}

impl Workspace {
    pub closed spec fn agents(&self) -> Seq<AgentRow> {
        self.agents@
    }

    pub closed spec fn messages(&self) -> Seq<MessageRow> {
        self.messages@
    }

    pub closed spec fn tasks(&self) -> Seq<TaskRow> {
        self.tasks@
    }

    pub closed spec fn task_history(&self) -> Seq<TaskHistoryRow> {
        self.task_history@
    }

    pub closed spec fn mappings(&self) -> Seq<IdMappingRow> {
        self.mappings@
    }

    pub closed spec fn mapping_history(&self) -> Seq<IdMappingHistoryRow> {
        self.mapping_history@
    }

    /// Every table is in its listing order and its keys are distinct.
    pub open spec fn wf(&self) -> bool {
        &&& agents_sorted(self.agents())
        &&& agent_ids_unique(self.agents())
        &&& message_ids_increasing(self.messages())
        &&& task_ids_increasing(self.tasks())
        &&& history_ids_increasing(self.task_history())
        &&& mappings_sorted(self.mappings())
        &&& mapping_history_sorted(self.mapping_history())
    }

    /// There is an id left for one more message.
    pub open spec fn message_room(&self) -> bool {
        next_message_id(self.messages()) <= i64::MAX
    }

    /// There is an id left for one more task.
    pub open spec fn task_room(&self) -> bool {
        next_task_id(self.tasks()) <= i64::MAX
    }

    /// There is an id left for one more task history row.
    pub open spec fn history_room(&self) -> bool {
        next_history_id(self.task_history()) <= i64::MAX
    }

    /// An empty workspace.
    pub fn new() -> (ws: Workspace)
        ensures
            ws.wf(),
            ws.agents() == Seq::<AgentRow>::empty(),
            ws.messages() == Seq::<MessageRow>::empty(),
            ws.tasks() == Seq::<TaskRow>::empty(),
            ws.task_history() == Seq::<TaskHistoryRow>::empty(),
            ws.mappings() == Seq::<IdMappingRow>::empty(),
            ws.mapping_history() == Seq::<IdMappingHistoryRow>::empty(),
    {
        Workspace {
            agents: Vec::new(),
            messages: Vec::new(),
            tasks: Vec::new(),
            task_history: Vec::new(),
            mappings: Vec::new(),
            mapping_history: Vec::new(),
        }
    }

    /// A workspace holding the given tables, when each is in its listing
    /// order with distinct keys; `None` otherwise.
    pub fn from_tables(
        agents: Vec<AgentRow>,
        messages: Vec<MessageRow>,
        tasks: Vec<TaskRow>,
        task_history: Vec<TaskHistoryRow>,
        mappings: Vec<IdMappingRow>,
        mapping_history: Vec<IdMappingHistoryRow>,
    ) -> (r: Option<Workspace>)
        ensures
            r is Some <==> (agents_sorted(agents@) && agent_ids_unique(agents@) && message_ids_increasing(messages@)
                && task_ids_increasing(tasks@) && history_ids_increasing(task_history@)
                && mappings_sorted(mappings@) && mapping_history_sorted(mapping_history@)),
            r matches Some(ws) ==> {
                &&& ws.wf()
                &&& ws.agents() == agents@
                &&& ws.messages() == messages@
                &&& ws.tasks() == tasks@
                &&& ws.task_history() == task_history@
                &&& ws.mappings() == mappings@
                &&& ws.mapping_history() == mapping_history@
            },
    {
        let ok = check_agents_sorted(&agents) && check_agent_ids_unique(&agents) && check_message_ids(&messages) && check_task_ids(
            &tasks,
        ) && check_history_ids(&task_history) && check_mappings_sorted(&mappings)
            && check_mapping_history_sorted(&mapping_history);
        if ok {
            Some(Workspace { agents, messages, tasks, task_history, mappings, mapping_history })
        } else {
            None
        }
    }

    /// The agents, in listing order.
    pub fn agent_rows(&self) -> (r: &Vec<AgentRow>)
        ensures
            r@ == self.agents(),
    {
        &self.agents
    }

    /// The messages, by id.
    pub fn message_rows(&self) -> (r: &Vec<MessageRow>)
        ensures
            r@ == self.messages(),
    {
        &self.messages
    }

    /// The tasks, by id.
    pub fn task_rows(&self) -> (r: &Vec<TaskRow>)
        ensures
            r@ == self.tasks(),
    {
        &self.tasks
    }

    /// The task history, by id.
    pub fn task_history_rows(&self) -> (r: &Vec<TaskHistoryRow>)
        ensures
            r@ == self.task_history(),
    {
        &self.task_history
    }

    /// The ID mappings, in listing order.
    pub fn mapping_rows(&self) -> (r: &Vec<IdMappingRow>)
        ensures
            r@ == self.mappings(),
    {
        &self.mappings
    }

    /// The ID mapping history, in listing order.
    pub fn mapping_history_rows(&self) -> (r: &Vec<IdMappingHistoryRow>)
        ensures
            r@ == self.mapping_history(),
    {
        &self.mapping_history
    }
}


// ---------------------------------------------------------------------------
// Agents
// ---------------------------------------------------------------------------
/// The `k`-th id tried for a requested agent id: the id itself first, then
/// `<id>-2`, `<id>-3`, ...
pub open spec fn candidate(requested: Seq<char>, k: nat) -> Seq<char> {
    if k <= 1 {
        requested
    } else {
        requested + seq!['-'] + decimal(k)
    }
}

/// `candidate(requested, k)` is the first candidate no agent holds.
pub open spec fn first_free(agents: Seq<AgentRow>, requested: Seq<char>, k: nat) -> bool {
    &&& k >= 1
    &&& !has_agent(agents, candidate(requested, k))
    &&& forall|j: nat| 1 <= j < k ==> has_agent(agents, #[trigger] candidate(requested, j))
}

/// Different tries give different ids.
pub proof fn lemma_candidate_injective(requested: Seq<char>, a: nat, b: nat)
    requires
        a >= 1,
        b >= 1,
        candidate(requested, a) == candidate(requested, b),
    ensures
        a == b,
{
    lemma_decimal_nonempty(a);
    lemma_decimal_nonempty(b);
    if a >= 2 && b >= 2 {
        let n: int = requested.len() as int + 1;
        assert(candidate(requested, a).skip(n) =~= decimal(a));
        assert(candidate(requested, b).skip(n) =~= decimal(b));
        lemma_decimal_injective(a, b);
    } else if a >= 2 {
        assert(candidate(requested, a).len() > requested.len());
    } else if b >= 2 {
        assert(candidate(requested, b).len() > requested.len());
    }
}

/// If the first `m` candidates are all held by agents with distinct ids,
/// there are at least `m` agents.
pub proof fn lemma_taken_candidates_bound(agents: Seq<AgentRow>, requested: Seq<char>, m: nat)
    requires
        agent_ids_unique(agents),
        forall|j: nat| 1 <= j <= m ==> has_agent(agents, #[trigger] candidate(requested, j)),
    ensures
        m <= agents.len(),
{
    let cands = Seq::new(m, |i: int| candidate(requested, (i + 1) as nat));
    let ids = agents.map_values(|a: AgentRow| a.id@);
    assert(cands.no_duplicates()) by {
        assert forall|i: int, j: int| 0 <= i < cands.len() && 0 <= j < cands.len() && i != j
            implies cands[i] != cands[j] by {
            if cands[i] == cands[j] {
                lemma_candidate_injective(requested, (i + 1) as nat, (j + 1) as nat);
            }
        }
    }
    cands.unique_seq_to_set();
    ids.lemma_cardinality_of_set();
    vstd::seq_lib::seq_to_set_is_finite(ids);
    assert(cands.to_set().subset_of(ids.to_set())) by {
        assert forall|x: Seq<char>| cands.to_set().contains(x) implies ids.to_set().contains(
            x,
        ) by {
            let i = choose|i: int| 0 <= i < cands.len() && cands[i] == x;
            assert(cands[i] == candidate(requested, (i + 1) as nat));
            assert(has_agent(agents, candidate(requested, (i + 1) as nat)));
            let k = choose|k: int|
                0 <= k < agents.len() && (#[trigger] agents[k]).id@ == candidate(
                    requested,
                    (i + 1) as nat,
                );
            assert(ids[k] == x);
        }
    }
    vstd::set_lib::lemma_len_subset(cands.to_set(), ids.to_set());
}

/// The `k`-th id tried for a requested agent id.
fn candidate_string(requested: &str, k: u64) -> (r: String)
    requires
        k >= 2,
    ensures
        r@ == candidate(requested@, k as nat),
{
    let mut r = owned(requested);
    push_char(&mut r, '-');
    let d = format_u64(k);
    r.append(d.as_str());
    assert(r@ =~= candidate(requested@, k as nat));
    r
}

impl Workspace {
    /// The position of the agent with the given id.
    pub fn find_agent(&self, id: &str) -> (r: Option<usize>)
        ensures
            r is None <==> !has_agent(self.agents(), id@),
            r matches Some(k) ==> k < self.agents().len() && self.agents()[k as int].id@ == id@,
    {
        let mut k: usize = 0;
        while k < self.agents.len()
            invariant
                k <= self.agents@.len(),
                forall|j: int| 0 <= j < k ==> (#[trigger] self.agents@[j]).id@ != id@,
            decreases self.agents.len() - k,
        {
            if str_eq(self.agents[k].id.as_str(), id) {
                return Some(k);
            }
            k = k + 1;
        }
        None
    }

    /// The id an agent joining under `requested` gets: the requested id when
    /// it is free, else `<requested>-<n>` for the least `n >= 2` that is free.
    pub fn allocate_agent_id(&self, requested: &str) -> (r: String)
        requires
            self.wf(),
            self.agents().len() < usize::MAX,
        ensures
            exists|k: nat| first_free(self.agents(), requested@, k) && r@ == candidate(
                requested@,
                k,
            ),
            !has_agent(self.agents(), r@),
    {
        if self.find_agent(requested).is_none() {
            let r = owned(requested);
            assert(first_free(self.agents(), requested@, 1));
            return r;
        }
        let mut suffix: usize = 2;
        let mut cand = candidate_string(requested, 2);
        while self.find_agent(cand.as_str()).is_some()
            invariant
                self.wf(),
                self.agents().len() < usize::MAX,
                2 <= suffix <= self.agents().len() + 1,
                cand@ == candidate(requested@, suffix as nat),
                forall|j: nat| 1 <= j < suffix ==> has_agent(self.agents(), #[trigger] candidate(requested@, j)),
            decreases self.agents().len() + 2 - suffix,
        {
            proof {
                assert forall|j: nat| 1 <= j <= suffix implies has_agent(
                    self.agents(),
                    #[trigger] candidate(requested@, j),
                ) by {}
                lemma_taken_candidates_bound(self.agents(), requested@, suffix as nat);
            }
            suffix = suffix + 1;
            cand = candidate_string(requested, suffix as u64);
        }
        assert(first_free(self.agents(), requested@, suffix as nat));
        cand
    }

    /// Adds an agent whose id no agent holds, keeping the listing order.
    fn insert_agent(&mut self, row: AgentRow) -> (p: usize)
        requires
            old(self).wf(),
            !has_agent(old(self).agents(), row.id@),
        ensures
            final(self).wf(),
            p <= old(self).agents().len(),
            final(self).agents() == old(self).agents().insert(p as int, row),
            final(self).messages() == old(self).messages(),
            final(self).tasks() == old(self).tasks(),
            final(self).task_history() == old(self).task_history(),
            final(self).mappings() == old(self).mappings(),
            final(self).mapping_history() == old(self).mapping_history(),
    {
        let ghost old_agents = self.agents@;
        let mut p: usize = 0;
        while p < self.agents.len() && !(opt_str_lt(&row.joined_at, &self.agents[p].joined_at) || (
        opt_eq(&row.joined_at, &self.agents[p].joined_at) && str_lt(
            row.id.as_str(),
            self.agents[p].id.as_str(),
        )))
            invariant
                p <= self.agents@.len(),
                self.agents@ == old_agents,
                forall|k: int| 0 <= k < p ==> !agent_before(row, #[trigger] old_agents[k]),
            decreases self.agents.len() - p,
        {
            p = p + 1;
        }
        proof {
            let s = old_agents;
            let t = s.insert(p as int, row);
            assert forall|i: int, j: int| 0 <= i < j < t.len() implies agent_before(
                #[trigger] t[i],
                #[trigger] t[j],
            ) by {
                if j < p {
                    assert(agent_before(s[i], s[j]));
                } else if j == p {
                    assert(t[i] == s[i]);
                    assert(!agent_before(row, s[i]));
                    assert(row.id@ != s[i].id@);
                    lemma_agent_before_total(row, s[i]);
                } else if i == p {
                    assert(t[j] == s[j - 1]);
                    assert(agent_before(row, s[p as int]));
                    if j - 1 > p {
                        assert(agent_before(s[p as int], s[j - 1]));
                        lemma_agent_before_transitive(row, s[p as int], s[j - 1]);
                    }
                } else if i < p {
                    assert(agent_before(s[i], s[j - 1]));
                } else {
                    assert(agent_before(s[i - 1], s[j - 1]));
                }
            }
            assert forall|i: int, j: int|
                0 <= i < t.len() && 0 <= j < t.len() && i != j implies (#[trigger] t[i]).id@ != (
                #[trigger] t[j]).id@ by {
                if i != p && j != p {
                    let i2 = if i < p { i } else { i - 1 };
                    let j2 = if j < p { j } else { j - 1 };
                    assert(t[i] == s[i2]);
                    assert(t[j] == s[j2]);
                } else if i == p {
                    let j2 = if j < p { j } else { j - 1 };
                    assert(t[j] == s[j2]);
                } else {
                    let i2 = if i < p { i } else { i - 1 };
                    assert(t[i] == s[i2]);
                }
            }
        }
        self.agents.insert(p, row);
        p
    }

    /// Removes the agent with the given id, if there is one.
    fn remove_agent(&mut self, id: &str) -> (removed: bool)
        requires
            old(self).wf(),
        ensures
            final(self).wf(),
            removed == has_agent(old(self).agents(), id@),
            !has_agent(final(self).agents(), id@),
            removed ==> exists|k: int|
                0 <= k < old(self).agents().len() && old(self).agents()[k].id@ == id@
                    && final(self).agents() == old(self).agents().remove(k),
            !removed ==> final(self).agents() == old(self).agents(),
            final(self).messages() == old(self).messages(),
            final(self).tasks() == old(self).tasks(),
            final(self).task_history() == old(self).task_history(),
            final(self).mappings() == old(self).mappings(),
            final(self).mapping_history() == old(self).mapping_history(),
    {
        match self.find_agent(id) {
            None => false,
            Some(k) => {
                let ghost s = self.agents@;
                let _ = self.agents.remove(k);
                proof {
                    let t = s.remove(k as int);
                    assert(t == self.agents@);
                    assert forall|i: int, j: int| 0 <= i < j < t.len() implies agent_before(
                        #[trigger] t[i],
                        #[trigger] t[j],
                    ) by {
                        let i2 = if i < k { i } else { i + 1 };
                        let j2 = if j < k { j } else { j + 1 };
                        assert(t[i] == s[i2]);
                        assert(t[j] == s[j2]);
                    }
                    assert forall|i: int, j: int|
                        0 <= i < t.len() && 0 <= j < t.len() && i != j implies (
                        #[trigger] t[i]).id@ != (#[trigger] t[j]).id@ by {
                        let i2 = if i < k { i } else { i + 1 };
                        let j2 = if j < k { j } else { j + 1 };
                        assert(t[i] == s[i2]);
                        assert(t[j] == s[j2]);
                    }
                    if has_agent(t, id@) {
                        let j = choose|j: int| 0 <= j < t.len() && (#[trigger] t[j]).id@ == id@;
                        let j2 = if j < k { j } else { j + 1 };
                        assert(t[j] == s[j2]);
                    }
                }
                true
            },
        }
    }

    /// Registers an agent under the first free id derived from `requested`
    /// (see `allocate_agent_id`) and returns that id.
    pub fn join_agent(&mut self, requested: &str, role: &str, backend: &str, now: &str) -> (r:
        String)
        requires
            old(self).wf(),
            old(self).agents().len() < usize::MAX,
        ensures
            final(self).wf(),
            exists|k: nat| first_free(old(self).agents(), requested@, k) && r@ == candidate(
                requested@,
                k,
            ),
            !has_agent(old(self).agents(), r@),
            exists|p: int|
                0 <= p <= old(self).agents().len() && final(self).agents() == old(self).agents().insert(p, final(self).agents()[p]) && final(self).agents()[p].id@
                    == r@ && final(self).agents()[p].role@ == role@ && final(self).agents()[p].backend@ == backend@ && opt_view(final(self).agents()[p].joined_at)
                    == Some(now@),
            final(self).messages() == old(self).messages(),
            final(self).tasks() == old(self).tasks(),
            final(self).task_history() == old(self).task_history(),
            final(self).mappings() == old(self).mappings(),
            final(self).mapping_history() == old(self).mapping_history(),
    {
        let id = self.allocate_agent_id(requested);
        let row = AgentRow {
            id: id.clone(),
            role: owned(role),
            backend: owned(backend),
            joined_at: Some(owned(now)),
        };
        let p = self.insert_agent(row);
        assert(self.agents()[p as int].id@ == id@);
        id
    }

    /// Removes the agent with the given id; nothing happens when no agent
    /// has it.  Returns whether an agent was removed.
    pub fn leave_agent(&mut self, id: &str) -> (removed: bool)
        requires
            old(self).wf(),
        ensures
            final(self).wf(),
            removed == has_agent(old(self).agents(), id@),
            !has_agent(final(self).agents(), id@),
            removed ==> exists|k: int|
                0 <= k < old(self).agents().len() && old(self).agents()[k].id@ == id@
                    && final(self).agents() == old(self).agents().remove(k),
            !removed ==> final(self).agents() == old(self).agents(),
            final(self).messages() == old(self).messages(),
            final(self).tasks() == old(self).tasks(),
            final(self).task_history() == old(self).task_history(),
            final(self).mappings() == old(self).mappings(),
            final(self).mapping_history() == old(self).mapping_history(),
    {
        self.remove_agent(id)
    }

    /// The agents, ordered by `joined_at` and then id.
    pub fn list_agents(&self) -> (r: Vec<AgentRow>)
        ensures
            r@ == self.agents(),
    {
        let mut r: Vec<AgentRow> = Vec::new();
        let mut k: usize = 0;
        while k < self.agents.len()
            invariant
                k <= self.agents@.len(),
                r@ == self.agents@.take(k as int),
            decreases self.agents.len() - k,
        {
            r.push(self.agents[k].duplicate());
            k = k + 1;
            assert(r@ =~= self.agents@.take(k as int));
        }
        assert(self.agents@.take(self.agents@.len() as int) =~= self.agents@);
        r
    }
}


// ---------------------------------------------------------------------------
// Messages
// ---------------------------------------------------------------------------
/// `m` is addressed to `r` and has not been delivered yet.
pub open spec fn unread_for(m: MessageRow, r: Seq<char>) -> bool {
    m.recipient@ == r && m.read == 0
}

/// The messages of `s` that are unread for `r`, in order.
pub open spec fn unread_of(s: Seq<MessageRow>, r: Seq<char>) -> Seq<MessageRow>
    decreases s.len(),
{
    if s.len() == 0 {
        Seq::empty()
    } else {
        let rest = unread_of(s.drop_last(), r);
        if unread_for(s.last(), r) {
            rest.push(s.last())
        } else {
            rest
        }
    }
}

/// `m` once delivered.
pub open spec fn read_row(m: MessageRow) -> MessageRow {
    MessageRow { read: 1, ..m }
}

/// `s` after the messages before position `upto` that were unread for `r`
/// have been marked read.
pub open spec fn mark_read_before(s: Seq<MessageRow>, r: Seq<char>, upto: int) -> Seq<MessageRow> {
    Seq::new(
        s.len(),
        |k: int|
            if k < upto && unread_for(s[k], r) {
                read_row(s[k])
            } else {
                s[k]
            },
    )
}

/// `m` is the message a send of `body` from `sender` to `recipient` at `now`
/// stores under `id`.
pub open spec fn is_new_message(
    m: MessageRow,
    id: int,
    sender: Seq<char>,
    recipient: Seq<char>,
    body: Seq<char>,
    now: Seq<char>,
) -> bool {
    &&& m.id == id
    &&& m.sender@ == sender
    &&& m.recipient@ == recipient
    &&& m.body@ == body
    &&& opt_view(m.created_at) == Some(now)
    &&& m.read == 0
}

pub proof fn lemma_unread_of_prefix(s: Seq<MessageRow>, r: Seq<char>, i: int)
    requires
        0 <= i < s.len(),
    ensures
        unread_of(s.take(i + 1), r) == if unread_for(s[i], r) {
            unread_of(s.take(i), r).push(s[i])
        } else {
            unread_of(s.take(i), r)
        },
{
    assert(s.take(i + 1).drop_last() =~= s.take(i));
}

impl Workspace {
    /// Stores a new unread message and returns its id.
    pub fn push_message(&mut self, sender: &str, recipient: &str, body: &str, now: &str) -> (id:
        i64)
        requires
            old(self).wf(),
            old(self).message_room(),
        ensures
            final(self).wf(),
            id == next_message_id(old(self).messages()),
            final(self).messages().len() == old(self).messages().len() + 1,
            final(self).messages().drop_last() == old(self).messages(),
            is_new_message(final(self).messages().last(), id as int, sender@, recipient@, body@, now@),
            final(self).agents() == old(self).agents(),
            final(self).tasks() == old(self).tasks(),
            final(self).task_history() == old(self).task_history(),
            final(self).mappings() == old(self).mappings(),
            final(self).mapping_history() == old(self).mapping_history(),
    {
        let id: i64 = if self.messages.len() == 0 {
            1
        } else {
            self.messages[self.messages.len() - 1].id + 1
        };
        let row = MessageRow {
            id,
            sender: owned(sender),
            recipient: owned(recipient),
            body: owned(body),
            created_at: Some(owned(now)),
            read: 0,
        };
        let ghost s = self.messages@;
        self.messages.push(row);
        assert(self.messages@.drop_last() =~= s);
        id
    }

    /// The messages addressed to `recipient` that are still unread, by id.
    pub fn unread_messages(&self, recipient: &str) -> (r: Vec<MessageRow>)
        ensures
            r@ == unread_of(self.messages(), recipient@),
    {
        let mut r: Vec<MessageRow> = Vec::new();
        let mut k: usize = 0;
        while k < self.messages.len()
            invariant
                k <= self.messages@.len(),
                r@ == unread_of(self.messages@.take(k as int), recipient@),
            decreases self.messages.len() - k,
        {
            proof {
                lemma_unread_of_prefix(self.messages@, recipient@, k as int);
            }
            if str_eq(self.messages[k].recipient.as_str(), recipient) && self.messages[k].read
                == 0 {
                r.push(self.messages[k].duplicate());
            }
            k = k + 1;
        }
        assert(self.messages@.take(self.messages@.len() as int) =~= self.messages@);
        r
    }

    /// Marks read the messages before position `upto` that were unread for
    /// `recipient`.
    pub fn mark_unread_read(&mut self, recipient: &str, upto: usize)
        requires
            old(self).wf(),
            upto <= old(self).messages().len(),
        ensures
            final(self).wf(),
            final(self).messages() == mark_read_before(old(self).messages(), recipient@, upto as int),
            final(self).agents() == old(self).agents(),
            final(self).tasks() == old(self).tasks(),
            final(self).task_history() == old(self).task_history(),
            final(self).mappings() == old(self).mappings(),
            final(self).mapping_history() == old(self).mapping_history(),
    {
        let ghost s = self.messages@;
        let mut out: Vec<MessageRow> = Vec::new();
        let mut k: usize = 0;
        while k < self.messages.len()
            invariant
                k <= s.len(),
                upto <= s.len(),
                self.messages@ == s,
                out@.len() == k,
                forall|j: int|
                    0 <= j < k ==> #[trigger] out@[j] == if j < upto && unread_for(
                        s[j],
                        recipient@,
                    ) {
                        read_row(s[j])
                    } else {
                        s[j]
                    },
            decreases s.len() - k,
        {
            let mut m = self.messages[k].duplicate();
            if k < upto && str_eq(m.recipient.as_str(), recipient) && m.read == 0 {
                m.read = 1;
            }
            out.push(m);
            k = k + 1;
        }
        assert(out@ =~= mark_read_before(s, recipient@, upto as int));
        assert forall|i: int, j: int| 0 <= i < j < out@.len() implies (
        #[trigger] out@[i]).id < (#[trigger] out@[j]).id by {
            assert(out@[i].id == s[i].id);
            assert(out@[j].id == s[j].id);
        }
        self.messages = out;
    }

    /// The position of the message with the given id.
    fn find_message(&self, id: i64) -> (r: Option<usize>)
        ensures
            r is None <==> !exists|k: int| 0 <= k < self.messages().len() && (#[trigger] self.messages()[k]).id == id,
            r matches Some(k) ==> k < self.messages().len() && self.messages()[k as int].id == id,
    {
        let mut k: usize = 0;
        while k < self.messages.len()
            invariant
                k <= self.messages@.len(),
                forall|j: int| 0 <= j < k ==> (#[trigger] self.messages@[j]).id != id,
            decreases self.messages.len() - k,
        {
            if self.messages[k].id == id {
                return Some(k);
            }
            k = k + 1;
        }
        None
    }

    /// The position of the task with the given id.
    fn find_task_index(&self, id: i64) -> (r: Option<usize>)
        ensures
            r is None <==> !has_task(self.tasks(), id as int),
            r matches Some(k) ==> k < self.tasks().len() && self.tasks()[k as int].id == id,
    {
        let mut k: usize = 0;
        while k < self.tasks.len()
            invariant
                k <= self.tasks@.len(),
                forall|j: int| 0 <= j < k ==> (#[trigger] self.tasks@[j]).id != id,
            decreases self.tasks.len() - k,
        {
            if self.tasks[k].id == id {
                return Some(k);
            }
            k = k + 1;
        }
        None
    }

    /// Marks read the message with the given id; returns whether there is one.
    pub fn mark_message_read(&mut self, id: i64) -> (found: bool)
        requires
            old(self).wf(),
        ensures
            final(self).wf(),
            found == exists|k: int| 0 <= k < old(self).messages().len() && (#[trigger] old(self).messages()[k]).id == id,
            found ==> exists|k: int|
                0 <= k < old(self).messages().len() && old(self).messages()[k].id == id
                    && final(self).messages() == old(self).messages().update(k, read_row(old(self).messages()[k])),
            !found ==> final(self).messages() == old(self).messages(),
            final(self).agents() == old(self).agents(),
            final(self).tasks() == old(self).tasks(),
            final(self).task_history() == old(self).task_history(),
            final(self).mappings() == old(self).mappings(),
            final(self).mapping_history() == old(self).mapping_history(),
    {
        match self.find_message(id) {
            None => false,
            Some(k) => {
                let ghost s = self.messages@;
                let mut m = self.messages[k].duplicate();
                m.read = 1;
                self.messages.set(k, m);
                assert(self.messages@ =~= s.update(k as int, read_row(s[k as int])));
                assert forall|i: int, j: int| 0 <= i < j < self.messages@.len() implies (
                #[trigger] self.messages@[i]).id < (#[trigger] self.messages@[j]).id by {
                    assert(self.messages@[i].id == s[i].id);
                    assert(self.messages@[j].id == s[j].id);
                }
                true
            },
        }
    }
}

// ---------------------------------------------------------------------------
// Tasks and their history
// ---------------------------------------------------------------------------
/// `t` is the task a creation stores under `id`.
pub open spec fn is_new_task(
    t: TaskRow,
    id: int,
    creator: Seq<char>,
    assignee: Seq<char>,
    description: Seq<char>,
    now: Seq<char>,
) -> bool {
    &&& t.id == id
    &&& t.creator@ == creator
    &&& opt_view(t.assignee) == Some(assignee)
    &&& t.description@ == description
    &&& t.status@ == "created"@
    &&& t.result is None
    &&& opt_view(t.created_at) == Some(now)
    &&& opt_view(t.updated_at) == Some(now)
}

/// `new` is `old` with its status set, with its assignee and result set when
/// given, and with `updated_at` set to `now`.
pub open spec fn is_task_update(
    new: TaskRow,
    old: TaskRow,
    status: Seq<char>,
    assignee: Option<Seq<char>>,
    result: Option<Seq<char>>,
    now: Seq<char>,
) -> bool {
    &&& new.id == old.id
    &&& new.creator == old.creator
    &&& new.description == old.description
    &&& new.created_at == old.created_at
    &&& new.status@ == status
    &&& match assignee {
        Some(a) => opt_view(new.assignee) == Some(a),
        None => new.assignee == old.assignee,
    }
    &&& match result {
        Some(x) => opt_view(new.result) == Some(x),
        None => new.result == old.result,
    }
    &&& opt_view(new.updated_at) == Some(now)
}

/// `h` is the history row an event stores under `id`.
pub open spec fn is_new_history(
    h: TaskHistoryRow,
    id: int,
    task_id: int,
    event: Seq<char>,
    actor: Seq<char>,
    now: Seq<char>,
) -> bool {
    &&& h.id == id
    &&& h.task_id == task_id
    &&& h.event@ == event
    &&& h.actor@ == actor
    &&& opt_view(h.at) == Some(now)
}

/// The history rows of the given task, in order.
pub open spec fn history_of(s: Seq<TaskHistoryRow>, task_id: int) -> Seq<TaskHistoryRow>
    decreases s.len(),
{
    if s.len() == 0 {
        Seq::empty()
    } else {
        let rest = history_of(s.drop_last(), task_id);
        if s.last().task_id == task_id {
            rest.push(s.last())
        } else {
            rest
        }
    }
}

/// Whether some task has the given id.
pub open spec fn has_task(s: Seq<TaskRow>, id: int) -> bool {
    exists|k: int| 0 <= k < s.len() && (#[trigger] s[k]).id == id
}

impl Workspace {
    /// Stores a new task with status `created` and returns its id.
    pub fn insert_task(&mut self, creator: &str, assignee: &str, description: &str, now: &str) -> (id: i64)
        requires
            old(self).wf(),
            old(self).task_room(),
        ensures
            final(self).wf(),
            id == next_task_id(old(self).tasks()),
            final(self).tasks().len() == old(self).tasks().len() + 1,
            final(self).tasks().drop_last() == old(self).tasks(),
            is_new_task(final(self).tasks().last(), id as int, creator@, assignee@, description@, now@),
            final(self).agents() == old(self).agents(),
            final(self).messages() == old(self).messages(),
            final(self).task_history() == old(self).task_history(),
            final(self).mappings() == old(self).mappings(),
            final(self).mapping_history() == old(self).mapping_history(),
    {
        let id: i64 = if self.tasks.len() == 0 {
            1
        } else {
            self.tasks[self.tasks.len() - 1].id + 1
        };
        let row = TaskRow {
            id,
            creator: owned(creator),
            assignee: Some(owned(assignee)),
            description: owned(description),
            status: owned("created"),
            result: None,
            created_at: Some(owned(now)),
            updated_at: Some(owned(now)),
        };
        let ghost s = self.tasks@;
        self.tasks.push(row);
        assert(self.tasks@.drop_last() =~= s);
        id
    }

    /// Updates the task with the given id (see `is_task_update`); other tasks
    /// keep their values.  Returns whether there is such a task.
    pub fn update_task(
        &mut self,
        id: i64,
        status: &str,
        assignee: Option<&str>,
        result: Option<&str>,
        now: &str,
    ) -> (found: bool)
        requires
            old(self).wf(),
        ensures
            final(self).wf(),
            found == has_task(old(self).tasks(), id as int),
            final(self).tasks().len() == old(self).tasks().len(),
            forall|k: int|
                0 <= k < old(self).tasks().len() ==> if old(self).tasks()[k].id == id {
                    is_task_update(
                        #[trigger] final(self).tasks()[k],
                        old(self).tasks()[k],
                        status@,
                        match assignee {
                            Some(a) => Some(a@),
                            None => None,
                        },
                        match result {
                            Some(x) => Some(x@),
                            None => None,
                        },
                        now@,
                    )
                } else {
                    final(self).tasks()[k] == old(self).tasks()[k]
                },
            final(self).agents() == old(self).agents(),
            final(self).messages() == old(self).messages(),
            final(self).task_history() == old(self).task_history(),
            final(self).mappings() == old(self).mappings(),
            final(self).mapping_history() == old(self).mapping_history(),
    {
        let ghost s = self.tasks@;
        match self.find_task_index(id) {
            None => false,
            Some(k) => {
                let mut t = self.tasks[k].duplicate();
                t.status = owned(status);
                match assignee {
                    Some(a) => {
                        t.assignee = Some(owned(a));
                    },
                    None => {},
                }
                match result {
                    Some(x) => {
                        t.result = Some(owned(x));
                    },
                    None => {},
                }
                t.updated_at = Some(owned(now));
                self.tasks.set(k, t);
                assert forall|i: int, j: int| 0 <= i < j < self.tasks@.len() implies (
                #[trigger] self.tasks@[i]).id < (#[trigger] self.tasks@[j]).id by {
                    assert(self.tasks@[i].id == s[i].id);
                    assert(self.tasks@[j].id == s[j].id);
                }
                assert forall|j: int| 0 <= j < s.len() && j != k implies (#[trigger] s[j]).id != id by {
                    if j < k {
                        assert(s[j].id < s[k as int].id);
                    } else {
                        assert(s[k as int].id < s[j].id);
                    }
                }
                true
            },
        }
    }

    /// Records a task event and returns the id of the history row.
    pub fn push_history(&mut self, task_id: i64, event: &str, actor: &str, now: &str) -> (id: i64)
        requires
            old(self).wf(),
            old(self).history_room(),
        ensures
            final(self).wf(),
            id == next_history_id(old(self).task_history()),
            final(self).task_history().len() == old(self).task_history().len() + 1,
            final(self).task_history().drop_last() == old(self).task_history(),
            is_new_history(final(self).task_history().last(), id as int, task_id as int, event@, actor@, now@),
            final(self).agents() == old(self).agents(),
            final(self).messages() == old(self).messages(),
            final(self).tasks() == old(self).tasks(),
            final(self).mappings() == old(self).mappings(),
            final(self).mapping_history() == old(self).mapping_history(),
    {
        let id: i64 = if self.task_history.len() == 0 {
            1
        } else {
            self.task_history[self.task_history.len() - 1].id + 1
        };
        let row = TaskHistoryRow {
            id,
            task_id,
            event: owned(event),
            actor: owned(actor),
            at: Some(owned(now)),
        };
        let ghost s = self.task_history@;
        self.task_history.push(row);
        assert(self.task_history@.drop_last() =~= s);
        id
    }

    /// The task with the given id.
    pub fn find_task(&self, id: i64) -> (r: Option<TaskRow>)
        ensures
            r is Some <==> has_task(self.tasks(), id as int),
            r matches Some(t) ==> exists|k: int|
                0 <= k < self.tasks().len() && self.tasks()[k] == t && t.id == id,
    {
        let mut k: usize = 0;
        while k < self.tasks.len()
            invariant
                k <= self.tasks@.len(),
                forall|j: int| 0 <= j < k ==> (#[trigger] self.tasks@[j]).id != id,
            decreases self.tasks.len() - k,
        {
            if self.tasks[k].id == id {
                return Some(self.tasks[k].duplicate());
            }
            k = k + 1;
        }
        None
    }

    /// The history of the given task, oldest first.
    pub fn history_for(&self, task_id: i64) -> (r: Vec<TaskHistoryRow>)
        ensures
            r@ == history_of(self.task_history(), task_id as int),
    {
        let mut r: Vec<TaskHistoryRow> = Vec::new();
        let mut k: usize = 0;
        while k < self.task_history.len()
            invariant
                k <= self.task_history@.len(),
                r@ == history_of(self.task_history@.take(k as int), task_id as int),
            decreases self.task_history.len() - k,
        {
            assert(self.task_history@.take(k + 1).drop_last() =~= self.task_history@.take(k as int));
            if self.task_history[k].task_id == task_id {
                r.push(self.task_history[k].duplicate());
            }
            k = k + 1;
        }
        assert(self.task_history@.take(self.task_history@.len() as int) =~= self.task_history@);
        r
    }

    /// The tasks, newest first.
    pub fn tasks_newest_first(&self) -> (r: Vec<TaskRow>)
        ensures
            r@ == self.tasks().reverse(),
    {
        let mut r: Vec<TaskRow> = Vec::new();
        let mut k: usize = self.tasks.len();
        while k > 0
            invariant
                k <= self.tasks@.len(),
                r@ == self.tasks@.skip(k as int).reverse(),
            decreases k,
        {
            k = k - 1;
            r.push(self.tasks[k].duplicate());
            assert(r@ =~= self.tasks@.skip(k as int).reverse());
        }
        assert(self.tasks@.skip(0) =~= self.tasks@);
        r
    }
}


// ---------------------------------------------------------------------------
// KasperKonnect ID mappings
// ---------------------------------------------------------------------------
/// Whether `m` is the mapping of the local entity `(kind, local)`.
pub open spec fn mapping_is(m: IdMappingRow, kind: Seq<char>, local: Seq<char>) -> bool {
    m.entity_kind@ == kind && m.local_id@ == local
}

/// Whether some mapping is for `(kind, local)`.
pub open spec fn has_mapping(s: Seq<IdMappingRow>, kind: Seq<char>, local: Seq<char>) -> bool {
    exists|k: int| 0 <= k < s.len() && mapping_is(#[trigger] s[k], kind, local)
}

/// `m` is a freshly recorded mapping.
pub open spec fn is_new_mapping(
    m: IdMappingRow,
    kind: Seq<char>,
    local: Seq<char>,
    remote: Seq<char>,
    source: Option<Seq<char>>,
    now: Seq<char>,
) -> bool {
    &&& mapping_is(m, kind, local)
    &&& m.remote_id@ == remote
    &&& opt_view(m.remote_source) == source
    &&& opt_view(m.created_at) == Some(now)
    &&& opt_view(m.updated_at) == Some(now)
}

/// `new` is `old` pointed at a new remote id and source at `now`.
pub open spec fn is_mapping_update(
    new: IdMappingRow,
    old: IdMappingRow,
    remote: Seq<char>,
    source: Option<Seq<char>>,
    now: Seq<char>,
) -> bool {
    &&& new.entity_kind == old.entity_kind
    &&& new.local_id == old.local_id
    &&& new.created_at == old.created_at
    &&& new.remote_id@ == remote
    &&& opt_view(new.remote_source) == source
    &&& opt_view(new.updated_at) == Some(now)
}

/// `h` is a history entry with the given values.
pub open spec fn is_new_mapping_history(
    h: IdMappingHistoryRow,
    kind: Seq<char>,
    local: Seq<char>,
    remote: Seq<char>,
    source: Option<Seq<char>>,
    action: Seq<char>,
    now: Seq<char>,
) -> bool {
    &&& h.entity_kind@ == kind
    &&& h.local_id@ == local
    &&& h.remote_id@ == remote
    &&& opt_view(h.remote_source) == source
    &&& h.action@ == action
    &&& opt_view(h.recorded_at) == Some(now)
}

/// Position `p` is where an entry recorded at `at` goes: after every entry
/// recorded no later, before every entry recorded later.
pub open spec fn history_slot(s: Seq<IdMappingHistoryRow>, at: Option<Seq<char>>, p: int) -> bool {
    &&& 0 <= p <= s.len()
    &&& forall|k: int| 0 <= k < p ==> !opt_lt(at, opt_view(#[trigger] s[k].recorded_at))
    &&& p < s.len() ==> opt_lt(at, opt_view(s[p].recorded_at))
}

/// The first mapping of kind `kind` that points at `remote`, if any.
pub open spec fn first_by_remote(s: Seq<IdMappingRow>, kind: Seq<char>, remote: Seq<char>, k: int) -> bool {
    &&& 0 <= k < s.len()
    &&& s[k].entity_kind@ == kind
    &&& s[k].remote_id@ == remote
    &&& forall|j: int| 0 <= j < k ==> !((#[trigger] s[j]).entity_kind@ == kind && s[j].remote_id@ == remote)
}

impl Workspace {
    /// The position of the mapping of `(kind, local)`.
    pub fn find_mapping(&self, kind: &str, local: &str) -> (r: Option<usize>)
        requires
            self.wf(),
        ensures
            r is None <==> !has_mapping(self.mappings(), kind@, local@),
            r matches Some(k) ==> k < self.mappings().len() && mapping_is(self.mappings()[k as int], kind@, local@),
    {
        let mut k: usize = 0;
        while k < self.mappings.len()
            invariant
                k <= self.mappings@.len(),
                forall|j: int| 0 <= j < k ==> !mapping_is(#[trigger] self.mappings@[j], kind@, local@),
            decreases self.mappings.len() - k,
        {
            if str_eq(self.mappings[k].entity_kind.as_str(), kind) && str_eq(self.mappings[k].local_id.as_str(), local) {
                return Some(k);
            }
            k = k + 1;
        }
        None
    }

    /// The position of the first mapping of kind `kind` pointing at `remote`.
    pub fn find_mapping_by_remote(&self, kind: &str, remote: &str) -> (r: Option<usize>)
        ensures
            r is None <==> !exists|k: int| 0 <= k < self.mappings().len() && (#[trigger] self.mappings()[k]).entity_kind@ == kind@ && self.mappings()[k].remote_id@ == remote@,
            r matches Some(k) ==> first_by_remote(self.mappings(), kind@, remote@, k as int),
    {
        let mut k: usize = 0;
        while k < self.mappings.len()
            invariant
                k <= self.mappings@.len(),
                forall|j: int| 0 <= j < k ==> !((#[trigger] self.mappings@[j]).entity_kind@ == kind@ && self.mappings@[j].remote_id@ == remote@),
            decreases self.mappings.len() - k,
        {
            if str_eq(self.mappings[k].entity_kind.as_str(), kind) && str_eq(self.mappings[k].remote_id.as_str(), remote) {
                return Some(k);
            }
            k = k + 1;
        }
        None
    }

    /// A copy of the mapping at position `k`.
    pub fn mapping_at(&self, k: usize) -> (r: IdMappingRow)
        requires
            k < self.mappings().len(),
        ensures
            r == self.mappings()[k as int],
    {
        self.mappings[k].duplicate()
    }

    /// Points the mapping of `(kind, local)` at `remote` (creating it when
    /// there is none), keeping the listing order.
    pub fn upsert_mapping(
        &mut self,
        kind: &str,
        local: &str,
        remote: &str,
        source: Option<&str>,
        now: &str,
    )
        requires
            old(self).wf(),
        ensures
            final(self).wf(),
            has_mapping(old(self).mappings(), kind@, local@) ==> exists|k: int|
                0 <= k < old(self).mappings().len() && mapping_is(old(self).mappings()[k], kind@, local@)
                    && final(self).mappings() == old(self).mappings().update(k, final(self).mappings()[k])
                    && is_mapping_update(final(self).mappings()[k], old(self).mappings()[k], remote@, match source { Some(x) => Some(x@), None => None }, now@),
            !has_mapping(old(self).mappings(), kind@, local@) ==> exists|p: int|
                0 <= p <= old(self).mappings().len()
                    && final(self).mappings() == old(self).mappings().insert(p, final(self).mappings()[p])
                    && is_new_mapping(final(self).mappings()[p], kind@, local@, remote@, match source { Some(x) => Some(x@), None => None }, now@),
            final(self).agents() == old(self).agents(),
            final(self).messages() == old(self).messages(),
            final(self).tasks() == old(self).tasks(),
            final(self).task_history() == old(self).task_history(),
            final(self).mapping_history() == old(self).mapping_history(),
    {
        let ghost s = self.mappings@;
        match self.find_mapping(kind, local) {
            Some(k) => {
                let mut m = self.mappings[k].duplicate();
                m.remote_id = owned(remote);
                m.remote_source = owned_opt(source);
                m.updated_at = Some(owned(now));
                self.mappings.set(k, m);
                assert forall|i: int, j: int| 0 <= i < j < self.mappings@.len() implies mapping_before(
                    #[trigger] self.mappings@[i], #[trigger] self.mappings@[j]) by {
                    assert(mapping_before(s[i], s[j]));
                }
            },
            None => {
                let row = IdMappingRow {
                    entity_kind: owned(kind),
                    local_id: owned(local),
                    remote_id: owned(remote),
                    remote_source: owned_opt(source),
                    created_at: Some(owned(now)),
                    updated_at: Some(owned(now)),
                };
                let ghost g = row;
                let p = self.insert_mapping(row);
                assert(self.mappings()[p as int] == g);
            },
        }
    }

    /// Adds a mapping for a key no mapping has, keeping the listing order.
    fn insert_mapping(&mut self, row: IdMappingRow) -> (p: usize)
        requires
            old(self).wf(),
            !has_mapping(old(self).mappings(), row.entity_kind@, row.local_id@),
        ensures
            final(self).wf(),
            p <= old(self).mappings().len(),
            final(self).mappings() == old(self).mappings().insert(p as int, row),
            final(self).agents() == old(self).agents(),
            final(self).messages() == old(self).messages(),
            final(self).tasks() == old(self).tasks(),
            final(self).task_history() == old(self).task_history(),
            final(self).mapping_history() == old(self).mapping_history(),
    {
        let ghost s = self.mappings@;
        let mut p: usize = 0;
        while p < self.mappings.len() && !(str_lt(row.entity_kind.as_str(), self.mappings[p].entity_kind.as_str()) || (
        str_eq(row.entity_kind.as_str(), self.mappings[p].entity_kind.as_str()) && str_lt(
            row.local_id.as_str(),
            self.mappings[p].local_id.as_str(),
        )))
            invariant
                p <= s.len(),
                self.mappings@ == s,
                forall|k: int| 0 <= k < p ==> !mapping_before(row, #[trigger] s[k]),
            decreases self.mappings.len() - p,
        {
            p = p + 1;
        }
        proof {
            let t = s.insert(p as int, row);
            assert forall|i: int, j: int| 0 <= i < j < t.len() implies mapping_before(
                #[trigger] t[i],
                #[trigger] t[j],
            ) by {
                if j < p {
                    assert(mapping_before(s[i], s[j]));
                } else if j == p {
                    assert(t[i] == s[i]);
                    assert(!mapping_before(row, s[i]));
                    assert(!mapping_is(s[i], row.entity_kind@, row.local_id@));
                    lemma_mapping_before_total(row, s[i]);
                } else if i == p {
                    assert(t[j] == s[j - 1]);
                    if j - 1 > p {
                        assert(mapping_before(s[p as int], s[j - 1]));
                        lemma_mapping_before_transitive(row, s[p as int], s[j - 1]);
                    }
                } else if i < p {
                    assert(mapping_before(s[i], s[j - 1]));
                } else {
                    assert(mapping_before(s[i - 1], s[j - 1]));
                }
            }
        }
        self.mappings.insert(p, row);
        p
    }

    /// Records a mapping change, placed after every entry recorded no later.
    pub fn push_mapping_history(
        &mut self,
        kind: &str,
        local: &str,
        remote: &str,
        source: Option<&str>,
        action: &str,
        now: &str,
    ) -> (p: usize)
        requires
            old(self).wf(),
        ensures
            final(self).wf(),
            history_slot(old(self).mapping_history(), Some(now@), p as int),
            final(self).mapping_history() == old(self).mapping_history().insert(p as int, final(self).mapping_history()[p as int]),
            is_new_mapping_history(final(self).mapping_history()[p as int], kind@, local@, remote@, match source { Some(x) => Some(x@), None => None }, action@, now@),
            final(self).agents() == old(self).agents(),
            final(self).messages() == old(self).messages(),
            final(self).tasks() == old(self).tasks(),
            final(self).task_history() == old(self).task_history(),
            final(self).mappings() == old(self).mappings(),
    {
        let row = IdMappingHistoryRow {
            entity_kind: owned(kind),
            local_id: owned(local),
            remote_id: owned(remote),
            remote_source: owned_opt(source),
            action: owned(action),
            recorded_at: Some(owned(now)),
        };
        let ghost s = self.mapping_history@;
        let mut p: usize = 0;
        while p < self.mapping_history.len() && !opt_str_lt(&row.recorded_at, &self.mapping_history[p].recorded_at)
            invariant
                p <= s.len(),
                self.mapping_history@ == s,
                opt_view(row.recorded_at) == Some(now@),
                forall|k: int| 0 <= k < p ==> !opt_lt(Some(now@), opt_view(#[trigger] s[k].recorded_at)),
            decreases self.mapping_history.len() - p,
        {
            p = p + 1;
        }
        proof {
            let t = s.insert(p as int, row);
            let a = opt_view(row.recorded_at);
            assert forall|i: int, j: int| 0 <= i < j < t.len() implies !opt_lt(
                opt_view(#[trigger] t[j].recorded_at),
                opt_view(#[trigger] t[i].recorded_at),
            ) by {
                if j < p {
                    assert(!opt_lt(opt_view(s[j].recorded_at), opt_view(s[i].recorded_at)));
                } else if j == p {
                    assert(t[i] == s[i]);
                } else if i == p {
                    assert(t[j] == s[j - 1]);
                    let b = opt_view(s[p as int].recorded_at);
                    let c = opt_view(s[j - 1].recorded_at);
                    assert(opt_lt(a, b));
                    if opt_lt(c, a) {
                        lemma_opt_lt_transitive(c, a, b);
                        if j - 1 > p {
                            assert(!opt_lt(c, b));
                        } else {
                            lemma_opt_lt_irreflexive(b);
                        }
                    }
                } else if i < p {
                    assert(!opt_lt(opt_view(s[j - 1].recorded_at), opt_view(s[i].recorded_at)));
                } else {
                    assert(!opt_lt(opt_view(s[j - 1].recorded_at), opt_view(s[i - 1].recorded_at)));
                }
            }
        }
        self.mapping_history.insert(p, row);
        p
    }

    /// The ID mappings, by entity kind and local id.
    pub fn list_mappings(&self) -> (r: Vec<IdMappingRow>)
        ensures
            r@ == self.mappings(),
    {
        let mut r: Vec<IdMappingRow> = Vec::new();
        let mut k: usize = 0;
        while k < self.mappings.len()
            invariant
                k <= self.mappings@.len(),
                r@ == self.mappings@.take(k as int),
            decreases self.mappings.len() - k,
        {
            r.push(self.mappings[k].duplicate());
            k = k + 1;
            assert(r@ =~= self.mappings@.take(k as int));
        }
        assert(self.mappings@.take(self.mappings@.len() as int) =~= self.mappings@);
        r
    }

    /// The ID mapping history, oldest first.
    pub fn list_mapping_history(&self) -> (r: Vec<IdMappingHistoryRow>)
        ensures
            r@ == self.mapping_history(),
    {
        let mut r: Vec<IdMappingHistoryRow> = Vec::new();
        let mut k: usize = 0;
        while k < self.mapping_history.len()
            invariant
                k <= self.mapping_history@.len(),
                r@ == self.mapping_history@.take(k as int),
            decreases self.mapping_history.len() - k,
        {
            r.push(self.mapping_history[k].duplicate());
            k = k + 1;
            assert(r@ =~= self.mapping_history@.take(k as int));
        }
        assert(self.mapping_history@.take(self.mapping_history@.len() as int) =~= self.mapping_history@);
        r
    }
}


// ---------------------------------------------------------------------------
// Store-level operations under their workspace names
// ---------------------------------------------------------------------------
/// A fresh, empty workspace.
pub fn init_workspace() -> (ws: Workspace)
    ensures
        ws.wf(),
        ws.agents().len() == 0,
        ws.messages().len() == 0,
        ws.tasks().len() == 0,
        ws.task_history().len() == 0,
        ws.mappings().len() == 0,
        ws.mapping_history().len() == 0,
{
    Workspace::new()
}

/// The SQL expression for the current time that timestamps are taken from.
pub fn now_expr() -> (r: &'static str)
    ensures
        r@ == "datetime('now')"@,
{
    "datetime('now')"
}

/// Points the mapping of the local entity `(entity_kind, local_id)` at
/// `remote_id` (creating it when there is none) and records an `upsert`
/// entry in the mapping history.
pub fn record_id_mapping(
    ws: &mut Workspace,
    entity_kind: &str,
    local_id: &str,
    remote_id: &str,
    remote_source: Option<&str>,
    now: &str,
)
    requires
        old(ws).wf(),
    ensures
        final(ws).wf(),
        has_mapping(old(ws).mappings(), entity_kind@, local_id@) ==> exists|k: int|
            0 <= k < old(ws).mappings().len() && mapping_is(old(ws).mappings()[k], entity_kind@, local_id@)
                && final(ws).mappings() == old(ws).mappings().update(k, final(ws).mappings()[k])
                && is_mapping_update(final(ws).mappings()[k], old(ws).mappings()[k], remote_id@, match remote_source { Some(x) => Some(x@), None => None }, now@),
        !has_mapping(old(ws).mappings(), entity_kind@, local_id@) ==> exists|p: int|
            0 <= p <= old(ws).mappings().len()
                && final(ws).mappings() == old(ws).mappings().insert(p, final(ws).mappings()[p])
                && is_new_mapping(final(ws).mappings()[p], entity_kind@, local_id@, remote_id@, match remote_source { Some(x) => Some(x@), None => None }, now@),
        exists|p: int|
            history_slot(old(ws).mapping_history(), Some(now@), p)
                && final(ws).mapping_history() == old(ws).mapping_history().insert(p, final(ws).mapping_history()[p])
                && is_new_mapping_history(final(ws).mapping_history()[p], entity_kind@, local_id@, remote_id@, match remote_source { Some(x) => Some(x@), None => None }, "upsert"@, now@),
        crate::laws::mapping_recorded(
            old(ws).mappings(),
            final(ws).mappings(),
            entity_kind@,
            local_id@,
            remote_id@,
            match remote_source {
                Some(x) => Some(x@),
                None => None,
            },
            now@,
        ),
        final(ws).agents() == old(ws).agents(),
        final(ws).messages() == old(ws).messages(),
        final(ws).tasks() == old(ws).tasks(),
        final(ws).task_history() == old(ws).task_history(),
{
    ws.upsert_mapping(entity_kind, local_id, remote_id, remote_source, now);
    let p = ws.push_mapping_history(entity_kind, local_id, remote_id, remote_source, "upsert", now);
    assert(history_slot(old(ws).mapping_history(), Some(now@), p as int));
}

/// The remote id the local entity `(entity_kind, local_id)` is mirrored
/// under, if it has a mapping.
pub fn lookup_remote_id(ws: &Workspace, entity_kind: &str, local_id: &str) -> (r: Option<String>)
    requires
        ws.wf(),
    ensures
        r is Some <==> has_mapping(ws.mappings(), entity_kind@, local_id@),
        r matches Some(x) ==> exists|k: int|
            0 <= k < ws.mappings().len() && mapping_is(ws.mappings()[k], entity_kind@, local_id@)
                && ws.mappings()[k].remote_id@ == x@,
{
    match ws.find_mapping(entity_kind, local_id) {
        None => None,
        Some(k) => Some(ws.mapping_at(k).remote_id),
    }
}

/// The local id of the first mapping (in listing order) of kind
/// `entity_kind` that points at `remote_id`.
pub fn lookup_local_id(ws: &Workspace, entity_kind: &str, remote_id: &str) -> (r: Option<String>)
    ensures
        r is None <==> !exists|k: int|
            0 <= k < ws.mappings().len() && (#[trigger] ws.mappings()[k]).entity_kind@ == entity_kind@
                && ws.mappings()[k].remote_id@ == remote_id@,
        r matches Some(x) ==> exists|k: int|
            first_by_remote(ws.mappings(), entity_kind@, remote_id@, k) && ws.mappings()[k].local_id@ == x@,
{
    match ws.find_mapping_by_remote(entity_kind, remote_id) {
        None => None,
        Some(k) => Some(ws.mapping_at(k).local_id),
    }
}

/// The first mapping (in listing order) of kind `entity_kind` that points
/// at `remote_id`.
pub fn lookup_mapping_by_remote(ws: &Workspace, entity_kind: &str, remote_id: &str) -> (r: Option<
    IdMappingRow,
>)
    ensures
        r is None <==> !exists|k: int|
            0 <= k < ws.mappings().len() && (#[trigger] ws.mappings()[k]).entity_kind@ == entity_kind@
                && ws.mappings()[k].remote_id@ == remote_id@,
        r matches Some(m) ==> exists|k: int|
            first_by_remote(ws.mappings(), entity_kind@, remote_id@, k) && ws.mappings()[k] == m,
{
    match ws.find_mapping_by_remote(entity_kind, remote_id) {
        None => None,
        Some(k) => Some(ws.mapping_at(k)),
    }
}

/// All ID mappings, by entity kind and local id.
pub fn list_id_mappings(ws: &Workspace) -> (r: Vec<IdMappingRow>)
    ensures
        r@ == ws.mappings(),
{
    ws.list_mappings()
}

/// The ID mapping history, by time recorded and then insertion order.
pub fn list_id_mapping_history(ws: &Workspace) -> (r: Vec<IdMappingHistoryRow>)
    ensures
        r@ == ws.mapping_history(),
{
    ws.list_mapping_history()
}

fn check_agents_sorted(v: &Vec<AgentRow>) -> (r: bool)
    ensures
        r == agents_sorted(v@),
{
    let mut i: usize = 1;
    if v.len() == 0 {
        return true;
    }
    while i < v.len()
        invariant
            1 <= i <= v.len(),
            agents_sorted(v@.take(i as int)),
        decreases v.len() - i,
    {
        let b = opt_str_lt(&v[i - 1].joined_at, &v[i].joined_at) || (opt_eq(
            &v[i - 1].joined_at,
            &v[i].joined_at,
        ) && str_lt(v[i - 1].id.as_str(), v[i].id.as_str()));
        if !b {
            assert(!agents_sorted(v@)) by {
                assert(!agent_before(v@[i - 1], v@[i as int]));
            }
            return false;
        }
        proof {
            assert forall|a: int, c: int| 0 <= a < c < i + 1 implies agent_before(
                #[trigger] v@.take(i + 1)[a],
                #[trigger] v@.take(i + 1)[c],
            ) by {
                if c == i {
                    if a < i - 1 {
                        assert(agent_before(v@.take(i as int)[a], v@.take(i as int)[i - 1]));
                        lemma_agent_before_transitive(v@[a], v@[i - 1], v@[c]);
                    }
                } else {
                    assert(agent_before(v@.take(i as int)[a], v@.take(i as int)[c]));
                }
            }
        }
        i = i + 1;
    }
    assert(v@.take(v.len() as int) =~= v@);
    true
}

fn check_agent_ids_unique(v: &Vec<AgentRow>) -> (r: bool)
    ensures
        r == agent_ids_unique(v@),
{
    let mut i: usize = 0;
    while i < v.len()
        invariant
            i <= v.len(),
            forall|a: int, c: int|
                0 <= a < i && 0 <= c < v.len() && a != c ==> (#[trigger] v@[a]).id@ != (
                #[trigger] v@[c]).id@,
        decreases v.len() - i,
    {
        let mut j: usize = 0;
        while j < v.len()
            invariant
                i < v.len(),
                j <= v.len(),
                forall|a: int, c: int|
                    0 <= a < i && 0 <= c < v.len() && a != c ==> (#[trigger] v@[a]).id@ != (
                    #[trigger] v@[c]).id@,
                forall|c: int| 0 <= c < j && c != i ==> v@[i as int].id@ != (#[trigger] v@[c]).id@,
            decreases v.len() - j,
        {
            if j != i && str_eq(v[i].id.as_str(), v[j].id.as_str()) {
                assert(!agent_ids_unique(v@)) by {
                    assert(v@[i as int].id@ == v@[j as int].id@);
                }
                return false;
            }
            j = j + 1;
        }
        i = i + 1;
    }
    true
}

fn check_mappings_sorted(v: &Vec<IdMappingRow>) -> (r: bool)
    ensures
        r == mappings_sorted(v@),
{
    let mut i: usize = 1;
    if v.len() == 0 {
        return true;
    }
    while i < v.len()
        invariant
            1 <= i <= v.len(),
            mappings_sorted(v@.take(i as int)),
        decreases v.len() - i,
    {
        let b = str_lt(v[i - 1].entity_kind.as_str(), v[i].entity_kind.as_str()) || (str_eq(
            v[i - 1].entity_kind.as_str(),
            v[i].entity_kind.as_str(),
        ) && str_lt(v[i - 1].local_id.as_str(), v[i].local_id.as_str()));
        if !b {
            assert(!mappings_sorted(v@)) by {
                assert(!mapping_before(v@[i - 1], v@[i as int]));
            }
            return false;
        }
        proof {
            assert forall|a: int, c: int| 0 <= a < c < i + 1 implies mapping_before(
                #[trigger] v@.take(i + 1)[a],
                #[trigger] v@.take(i + 1)[c],
            ) by {
                if c == i {
                    if a < i - 1 {
                        assert(mapping_before(v@.take(i as int)[a], v@.take(i as int)[i - 1]));
                        lemma_mapping_before_transitive(v@[a], v@[i - 1], v@[c]);
                    }
                } else {
                    assert(mapping_before(v@.take(i as int)[a], v@.take(i as int)[c]));
                }
            }
        }
        i = i + 1;
    }
    assert(v@.take(v.len() as int) =~= v@);
    true
}

fn check_mapping_history_sorted(v: &Vec<IdMappingHistoryRow>) -> (r: bool)
    ensures
        r == mapping_history_sorted(v@),
{
    let mut i: usize = 1;
    if v.len() == 0 {
        return true;
    }
    while i < v.len()
        invariant
            1 <= i <= v.len(),
            mapping_history_sorted(v@.take(i as int)),
        decreases v.len() - i,
    {
        if opt_str_lt(&v[i].recorded_at, &v[i - 1].recorded_at) {
            assert(!mapping_history_sorted(v@)) by {
                assert(opt_lt(
                    opt_view(v@[i as int].recorded_at),
                    opt_view(v@[i - 1].recorded_at),
                ));
            }
            return false;
        }
        proof {
            assert forall|a: int, c: int| 0 <= a < c < i + 1 implies !opt_lt(
                opt_view(#[trigger] v@.take(i + 1)[c].recorded_at),
                opt_view(#[trigger] v@.take(i + 1)[a].recorded_at),
            ) by {
                if c == i && a < i - 1 {
                    let ra = opt_view(v@[a].recorded_at);
                    let rb = opt_view(v@[i - 1].recorded_at);
                    let rc = opt_view(v@[c].recorded_at);
                    assert(!opt_lt(
                        opt_view(v@.take(i as int)[i - 1].recorded_at),
                        opt_view(v@.take(i as int)[a].recorded_at),
                    ));
                    if opt_lt(rc, ra) {
                        // rc < ra; ra <= rb; so rc < rb unless ra == rb
                        lemma_opt_lt_total(ra, rb);
                        if ra != rb {
                            lemma_opt_lt_transitive(rc, ra, rb);
                        }
                    }
                } else if c < i {
                    assert(!opt_lt(
                        opt_view(v@.take(i as int)[c].recorded_at),
                        opt_view(v@.take(i as int)[a].recorded_at),
                    ));
                }
            }
        }
        i = i + 1;
    }
    assert(v@.take(v.len() as int) =~= v@);
    true
}

fn check_message_ids(v: &Vec<MessageRow>) -> (r: bool)
    ensures
        r == message_ids_increasing(v@),
{
    let mut i: usize = 1;
    if v.len() == 0 {
        return true;
    }
    while i < v.len()
        invariant
            1 <= i <= v.len(),
            forall|a: int, c: int| 0 <= a < c < i ==> (#[trigger] v@[a]).id < (#[trigger] v@[c]).id,
        decreases v.len() - i,
    {
        if v[i - 1].id >= v[i].id {
            return false;
        }
        proof {
            assert forall|a: int, c: int| 0 <= a < c < i + 1 implies (#[trigger] v@[a]).id < (
            #[trigger] v@[c]).id by {
                if c == i && a < i - 1 {
                    assert(v@[a].id < v@[i - 1].id);
                }
            }
        }
        i = i + 1;
    }
    true
}

fn check_task_ids(v: &Vec<TaskRow>) -> (r: bool)
    ensures
        r == task_ids_increasing(v@),
{
    let mut i: usize = 1;
    if v.len() == 0 {
        return true;
    }
    while i < v.len()
        invariant
            1 <= i <= v.len(),
            forall|a: int, c: int| 0 <= a < c < i ==> (#[trigger] v@[a]).id < (#[trigger] v@[c]).id,
        decreases v.len() - i,
    {
        if v[i - 1].id >= v[i].id {
            return false;
        }
        proof {
            assert forall|a: int, c: int| 0 <= a < c < i + 1 implies (#[trigger] v@[a]).id < (
            #[trigger] v@[c]).id by {
                if c == i && a < i - 1 {
                    assert(v@[a].id < v@[i - 1].id);
                }
            }
        }
        i = i + 1;
    }
    true
}

fn check_history_ids(v: &Vec<TaskHistoryRow>) -> (r: bool)
    ensures
        r == history_ids_increasing(v@),
{
    let mut i: usize = 1;
    if v.len() == 0 {
        return true;
    }
    while i < v.len()
        invariant
            1 <= i <= v.len(),
            forall|a: int, c: int| 0 <= a < c < i ==> (#[trigger] v@[a]).id < (#[trigger] v@[c]).id,
        decreases v.len() - i,
    {
        if v[i - 1].id >= v[i].id {
            return false;
        }
        proof {
            assert forall|a: int, c: int| 0 <= a < c < i + 1 implies (#[trigger] v@[a]).id < (
            #[trigger] v@[c]).id by {
                if c == i && a < i - 1 {
                    assert(v@[a].id < v@[i - 1].id);
                }
            }
        }
        i = i + 1;
    }
    true
}

/// Whether two optional strings are equal.
pub fn opt_eq(a: &Option<String>, b: &Option<String>) -> (r: bool)
    ensures
        r == (opt_view(*a) == opt_view(*b)),
{
    match (a, b) {
        (None, None) => true,
        (Some(x), Some(y)) => str_eq(x.as_str(), y.as_str()),
        _ => false,
    }
}

} // verus!
