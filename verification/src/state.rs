//! The mutable aggregate of derived session facts and its mutation API.
//! Every method's effect is pinned by a spec-level transition over the
//! state's mathematical view.

use vstd::prelude::*;

use crate::textutil::{chars_to_string, dec_of, push_dec, str_chars, str_eq, u64_to_string};
use crate::types::{
    ov, AgentSummary, AgentV, CompletedToolCount, EnvSnapshot, GitSnapshot, GitV, Line3Metrics,
    PendingTask, PendingV, TallyV, TaskItem, TaskItemV, TodoSummary, TodoV, ToolSummary, ToolV,
};

verus! {

/// Most completed agents retained after pruning, oldest evicted first.
pub const MAX_COMPLETED_AGENTS: usize = 10;

// ---- Generic first-match index ----

pub open spec fn first_idx<T>(s: Seq<T>, p: spec_fn(T) -> bool) -> int
    decreases s.len(),
{
    if s.len() == 0 {
        -1
    } else if p(s[0]) {
        0
    } else {
        let r = first_idx(s.drop_first(), p);
        if r < 0 {
            -1
        } else {
            r + 1
        }
    }
}

pub proof fn lemma_first_idx_none<T>(s: Seq<T>, p: spec_fn(T) -> bool)
    requires
        forall|j: int| 0 <= j < s.len() ==> !p(#[trigger] s[j]),
    ensures
        first_idx(s, p) == -1,
    decreases s.len(),
{
    if s.len() > 0 {
        assert forall|j: int| 0 <= j < s.drop_first().len() implies !p(#[trigger] s.drop_first()[j]) by {
            assert(s.drop_first()[j] == s[j + 1]);
        }
        lemma_first_idx_none(s.drop_first(), p);
    }
}

pub proof fn lemma_first_idx_found<T>(s: Seq<T>, p: spec_fn(T) -> bool, i: int)
    requires
        0 <= i < s.len(),
        p(s[i]),
        forall|j: int| 0 <= j < i ==> !p(#[trigger] s[j]),
    ensures
        first_idx(s, p) == i,
    decreases i,
{
    if i > 0 {
        assert forall|j: int| 0 <= j < i - 1 implies !p(#[trigger] s.drop_first()[j]) by {
            assert(s.drop_first()[j] == s[j + 1]);
        }
        assert(s.drop_first()[i - 1] == s[i]);
        lemma_first_idx_found(s.drop_first(), p, i - 1);
    }
}

pub proof fn lemma_first_idx_props<T>(s: Seq<T>, p: spec_fn(T) -> bool)
    ensures
        first_idx(s, p) == -1 ==> forall|j: int| 0 <= j < s.len() ==> !p(#[trigger] s[j]),
        first_idx(s, p) >= 0 ==> 0 <= first_idx(s, p) < s.len() && p(s[first_idx(s, p)]) && forall|
            j: int,
        | 0 <= j < first_idx(s, p) ==> !p(#[trigger] s[j]),
    decreases s.len(),
{
    if s.len() == 0 {
    } else if p(s[0]) {
    } else {
        lemma_first_idx_props(s.drop_first(), p);
        let r = first_idx(s.drop_first(), p);
        if r < 0 {
            assert forall|j: int| 0 <= j < s.len() implies !p(#[trigger] s[j]) by {
                if j > 0 {
                    assert(s.drop_first()[j - 1] == s[j]);
                }
            }
        } else {
            assert(s.drop_first()[r] == s[r + 1]);
            assert forall|j: int| 0 <= j < r + 1 implies !p(#[trigger] s[j]) by {
                if j > 0 {
                    assert(s.drop_first()[j - 1] == s[j]);
                }
            }
        }
    }
}



// ---- Named predicates over the collections ----

pub open spec fn tool_id_is(id: Seq<char>) -> spec_fn(ToolV) -> bool {
    |t: ToolV| t.id == id
}

pub open spec fn tool_id_not(id: Seq<char>) -> spec_fn(ToolV) -> bool {
    |t: ToolV| t.id != id
}

pub open spec fn agent_id_is(id: Seq<char>) -> spec_fn(AgentV) -> bool {
    |a: AgentV| a.id == id
}

pub open spec fn tally_name_is(name: Seq<char>) -> spec_fn(TallyV) -> bool {
    |t: TallyV| t.name == name
}

pub open spec fn pending_id_is(id: Seq<char>) -> spec_fn(PendingV) -> bool {
    |p: PendingV| p.tool_use_id == id
}

pub open spec fn link_key_is(key: Seq<char>) -> spec_fn((Seq<char>, Seq<char>)) -> bool {
    |l: (Seq<char>, Seq<char>)| l.0 == key
}

pub open spec fn link_val_is(val: Seq<char>) -> spec_fn((Seq<char>, Seq<char>)) -> bool {
    |l: (Seq<char>, Seq<char>)| l.1 == val
}

pub open spec fn item_key_is(key: Seq<char>) -> spec_fn((Seq<char>, TaskItemV)) -> bool {
    |p: (Seq<char>, TaskItemV)| p.0 == key
}

pub open spec fn item_key_not(key: Seq<char>) -> spec_fn((Seq<char>, TaskItemV)) -> bool {
    |p: (Seq<char>, TaskItemV)| p.0 != key
}

/// The element views of a vector of viewable values.
pub open spec fn views_of<T: View>(s: Seq<T>) -> Seq<T::V> {
    s.map_values(|x: T| x@)
}

// ---- The state and its view ----

/// Aggregate root of all facts derived from the transcript, plus the
/// short-TTL environment/git snapshots and the cached budget metrics.
pub struct SessionState {
    pub last_transcript_offset: u64,
    pub last_transcript_path: Option<String>,
    pub last_transcript_poll_ms: Option<u64>,
    pub active_tools: Vec<ToolSummary>,
    pub active_agents: Vec<AgentSummary>,
    pub completed_agents: Vec<AgentSummary>,
    pub completed_tool_counts: Vec<CompletedToolCount>,
    pub todo: Option<TodoSummary>,
    pub pending_tasks: Vec<PendingTask>,
    pub task_agent_links: Vec<(String, String)>,
    pub task_items: Vec<(String, TaskItem)>,
    pub task_counter: u32,
    pub cached_env: Option<(String, EnvSnapshot)>,
    pub cached_git: Option<(String, GitSnapshot)>,
    pub cached_line3: Option<Line3Metrics>,
}

#[verifier::ext_equal]
pub struct StateV {
    pub offset: u64,
    pub path: Option<Seq<char>>,
    pub poll_ms: Option<u64>,
    pub tools: Seq<ToolV>,
    pub agents: Seq<AgentV>,
    pub done_agents: Seq<AgentV>,
    pub tallies: Seq<TallyV>,
    pub todo: Option<TodoV>,
    pub pending: Seq<PendingV>,
    pub links: Seq<(Seq<char>, Seq<char>)>,
    pub items: Seq<(Seq<char>, TaskItemV)>,
    pub counter: u32,
    pub env: Option<(Seq<char>, EnvSnapshot)>,
    pub git: Option<(Seq<char>, GitV)>,
    pub line3: Option<Line3Metrics>,
}

pub open spec fn opt_todo_v(o: Option<TodoSummary>) -> Option<TodoV> {
    match o {
        Option::Some(t) => Option::Some(t@),
        Option::None => Option::None,
    }
}

pub open spec fn opt_pair_env_v(o: Option<(String, EnvSnapshot)>) -> Option<(Seq<char>, EnvSnapshot)> {
    match o {
        Option::Some(p) => Option::Some((p.0@, p.1)),
        Option::None => Option::None,
    }
}

pub open spec fn opt_pair_git_v(o: Option<(String, GitSnapshot)>) -> Option<(Seq<char>, GitV)> {
    match o {
        Option::Some(p) => Option::Some((p.0@, p.1@)),
        Option::None => Option::None,
    }
}

impl View for SessionState {
    type V = StateV;

    open spec fn view(&self) -> StateV {
        StateV {
            offset: self.last_transcript_offset,
            path: ov(self.last_transcript_path),
            poll_ms: self.last_transcript_poll_ms,
            tools: views_of(self.active_tools@),
            agents: views_of(self.active_agents@),
            done_agents: views_of(self.completed_agents@),
            tallies: views_of(self.completed_tool_counts@),
            todo: opt_todo_v(self.todo),
            pending: views_of(self.pending_tasks@),
            links: self.task_agent_links@.map_values(|l: (String, String)| (l.0@, l.1@)),
            items: self.task_items@.map_values(|l: (String, TaskItem)| (l.0@, l.1@)),
            counter: self.task_counter,
            env: opt_pair_env_v(self.cached_env),
            git: opt_pair_git_v(self.cached_git),
            line3: self.cached_line3,
        }
    }
}

/// A state with no derived facts and offset zero.
pub open spec fn state_cleared(v: StateV) -> bool {
    &&& v.offset == 0
    &&& v.poll_ms is None
    &&& v.tools.len() == 0
    &&& v.agents.len() == 0
    &&& v.done_agents.len() == 0
    &&& v.tallies.len() == 0
    &&& v.todo is None
    &&& v.pending.len() == 0
    &&& v.links.len() == 0
    &&& v.items.len() == 0
    &&& v.counter == 0
    &&& v.line3 is None
}

impl Default for SessionState {
    fn default() -> (r: Self)
        ensures
            state_cleared(r@),
            r@.path is None,
            r@.env is None,
            r@.git is None,
    {
        SessionState {
            last_transcript_offset: 0,
            last_transcript_path: Option::None,
            last_transcript_poll_ms: Option::None,
            active_tools: Vec::new(),
            active_agents: Vec::new(),
            completed_agents: Vec::new(),
            completed_tool_counts: Vec::new(),
            todo: Option::None,
            pending_tasks: Vec::new(),
            task_agent_links: Vec::new(),
            task_items: Vec::new(),
            task_counter: 0,
            cached_env: Option::None,
            cached_git: Option::None,
            cached_line3: Option::None,
        }
    }
}

// ---- Spec transitions ----

pub open spec fn spec_upsert_tool(v: StateV, id: Seq<char>, name: Seq<char>, target: Option<Seq<char>>) -> StateV {
    let i = first_idx(v.tools, tool_id_is(id));
    let kept = if i >= 0 {
        v.tools.remove(i)
    } else {
        v.tools
    };
    StateV { tools: kept.push(ToolV { id, name, target }), ..v }
}

pub open spec fn bump_tally(tallies: Seq<TallyV>, name: Seq<char>) -> Seq<TallyV> {
    let i = first_idx(tallies, tally_name_is(name));
    if i >= 0 {
        let c = tallies[i].count;
        tallies.update(i, TallyV { name, count: if c < u32::MAX { (c + 1) as u32 } else { c } })
    } else {
        tallies.push(TallyV { name, count: 1 })
    }
}

pub open spec fn spec_record_completion(v: StateV, name: Seq<char>) -> StateV {
    StateV { tallies: bump_tally(v.tallies, name), ..v }
}

pub open spec fn spec_remove_tool(v: StateV, id: Seq<char>) -> StateV {
    let i = first_idx(v.tools, tool_id_is(id));
    let v1 = if i >= 0 {
        spec_record_completion(v, v.tools[i].name)
    } else {
        v
    };
    StateV { tools: v.tools.filter(tool_id_not(id)), ..v1 }
}

pub open spec fn spec_upsert_agent(
    v: StateV,
    id: Seq<char>,
    description: Seq<char>,
    agent_type: Option<Seq<char>>,
    started_at: Option<u64>,
    model: Option<Seq<char>>,
    now_ms: u64,
) -> StateV {
    let i = first_idx(v.agents, agent_id_is(id));
    if i >= 0 {
        let prev = v.agents[i];
        let fresh = AgentV {
            id,
            description,
            agent_type,
            started_at: prev.started_at,
            model: if model is Some {
                model
            } else {
                prev.model
            },
            completed_at: Option::None,
        };
        StateV { agents: v.agents.remove(i).push(fresh), ..v }
    } else {
        let st = if started_at is Some {
            started_at
        } else {
            Option::Some(now_ms)
        };
        let fresh = AgentV {
            id,
            description,
            agent_type,
            started_at: st,
            model,
            completed_at: Option::None,
        };
        StateV { agents: v.agents.push(fresh), ..v }
    }
}

pub open spec fn prune_done(s: Seq<AgentV>) -> Seq<AgentV> {
    if s.len() > MAX_COMPLETED_AGENTS {
        s.skip(s.len() - MAX_COMPLETED_AGENTS)
    } else {
        s
    }
}

pub open spec fn spec_remove_agent(v: StateV, id: Seq<char>, now_ms: u64) -> StateV {
    let i = first_idx(v.agents, agent_id_is(id));
    if i >= 0 {
        let done = AgentV { completed_at: Option::Some(now_ms), ..v.agents[i] };
        StateV {
            agents: v.agents.remove(i),
            done_agents: prune_done(v.done_agents.push(done)),
            ..v
        }
    } else {
        v
    }
}

pub open spec fn spec_push_pending(v: StateV, p: PendingV) -> StateV {
    StateV { pending: v.pending.push(p), ..v }
}

pub open spec fn link_upsert(links: Seq<(Seq<char>, Seq<char>)>, key: Seq<char>, val: Seq<char>) -> Seq<(Seq<char>, Seq<char>)> {
    let i = first_idx(links, link_key_is(key));
    if i >= 0 {
        links.update(i, (key, val))
    } else {
        links.push((key, val))
    }
}

/// Dequeues the head pending task (if any) and records its link.
pub open spec fn spec_link_agent(v: StateV, agent_id: Seq<char>) -> StateV {
    if v.pending.len() == 0 {
        v
    } else {
        StateV {
            pending: v.pending.drop_first(),
            links: link_upsert(v.links, v.pending[0].tool_use_id, agent_id),
            ..v
        }
    }
}

pub open spec fn spec_link_lookup(v: StateV, tool_use_id: Seq<char>) -> Option<Seq<char>> {
    let i = first_idx(v.links, link_key_is(tool_use_id));
    if i >= 0 {
        Option::Some(v.links[i].1)
    } else {
        Option::None
    }
}

pub open spec fn spec_is_linked(v: StateV, agent_id: Seq<char>) -> bool {
    first_idx(v.links, link_val_is(agent_id)) >= 0
}

pub open spec fn spec_drain_pending(v: StateV, tool_use_id: Seq<char>) -> StateV {
    let i = first_idx(v.pending, pending_id_is(tool_use_id));
    if i >= 0 {
        StateV { pending: v.pending.remove(i), ..v }
    } else {
        v
    }
}

// ---- Todo transitions ----

pub open spec fn count_completed(items: Seq<(Seq<char>, TaskItemV)>) -> nat
    decreases items.len(),
{
    if items.len() == 0 {
        0
    } else {
        count_completed(items.drop_last()) + if items.last().1.status == "completed"@ {
            1nat
        } else {
            0nat
        }
    }
}

/// The derived todo aggregate: `None` when the item map is empty or
/// nothing is pending.
pub open spec fn spec_todo_of_items(items: Seq<(Seq<char>, TaskItemV)>) -> Option<TodoV> {
    let total = items.len();
    let completed = count_completed(items);
    let pending = total - completed;
    if total == 0 || pending == 0 {
        Option::None
    } else {
        Option::Some(
            TodoV {
                text: dec_of(completed) + "/"@ + dec_of(total) + " done, "@ + dec_of(
                    pending as nat,
                ) + " pending"@,
                pending: pending as usize,
                completed: completed as usize,
                total: total as usize,
            },
        )
    }
}

pub open spec fn spec_rebuild_todo(v: StateV) -> StateV {
    StateV { todo: spec_todo_of_items(v.items), ..v }
}

pub open spec fn item_upsert(items: Seq<(Seq<char>, TaskItemV)>, key: Seq<char>, it: TaskItemV) -> Seq<(Seq<char>, TaskItemV)> {
    let i = first_idx(items, item_key_is(key));
    if i >= 0 {
        items.update(i, (key, it))
    } else {
        items.push((key, it))
    }
}

pub open spec fn spec_create_task_item(v: StateV, subject: Seq<char>, active_form: Option<Seq<char>>) -> StateV {
    let c = if v.counter < u32::MAX {
        (v.counter + 1) as u32
    } else {
        v.counter
    };
    let id = dec_of(c as nat);
    let it = TaskItemV { subject, active_form, status: "pending"@ };
    spec_rebuild_todo(StateV { counter: c, items: item_upsert(v.items, id, it), ..v })
}

pub open spec fn spec_update_task_item(v: StateV, task_id: Seq<char>, status: Seq<char>) -> StateV {
    if status == "deleted"@ {
        spec_rebuild_todo(
            StateV { items: v.items.filter(item_key_not(task_id)), ..v },
        )
    } else {
        let i = first_idx(v.items, item_key_is(task_id));
        if i >= 0 {
            let it = TaskItemV { status, ..v.items[i].1 };
            spec_rebuild_todo(StateV { items: v.items.update(i, (v.items[i].0, it)), ..v })
        } else {
            spec_rebuild_todo(v)
        }
    }
}

pub open spec fn spec_set_todo(v: StateV, todo: Option<TodoV>) -> StateV {
    StateV { todo, ..v }
}

/// A transcript-path change resets every derived fact but keeps the
/// environment/git snapshots.
pub open spec fn spec_reset_for_path(v: StateV, path: Seq<char>) -> StateV {
    StateV {
        offset: 0,
        path: Option::Some(path),
        poll_ms: Option::None,
        tools: Seq::empty(),
        agents: Seq::empty(),
        done_agents: Seq::empty(),
        tallies: Seq::empty(),
        todo: Option::None,
        pending: Seq::empty(),
        links: Seq::empty(),
        items: Seq::empty(),
        counter: 0,
        line3: Option::None,
        ..v
    }
}

// ---- Exec find helpers ----

pub open spec fn links_view(links: Seq<(String, String)>) -> Seq<(Seq<char>, Seq<char>)> {
    links.map_values(|l: (String, String)| (l.0@, l.1@))
}

pub open spec fn items_view(items: Seq<(String, TaskItem)>) -> Seq<(Seq<char>, TaskItemV)> {
    items.map_values(|l: (String, TaskItem)| (l.0@, l.1@))
}

fn find_tool(v: &Vec<ToolSummary>, id: &str) -> (r: Option<usize>)
    ensures
        match r {
            Option::Some(i) => i < v@.len() && first_idx(views_of(v@), tool_id_is(id@)) == i as int,
            Option::None => first_idx(views_of(v@), tool_id_is(id@)) == -1,
        },
{
    let mut i: usize = 0;
    while i < v.len()
        invariant
            i <= v@.len(),
            forall|j: int| 0 <= j < i ==> #[trigger] views_of(v@)[j].id != id@,
        decreases v@.len() - i,
    {
        assert(views_of(v@)[i as int] == v@[i as int]@);
        if str_eq(v[i].id.as_str(), id) {
            proof {
                lemma_first_idx_found(views_of(v@), tool_id_is(id@), i as int);
            }
            return Option::Some(i);
        }
        i = i + 1;
    }
    proof {
        lemma_first_idx_none(views_of(v@), tool_id_is(id@));
    }
    Option::None
}

fn find_agent(v: &Vec<AgentSummary>, id: &str) -> (r: Option<usize>)
    ensures
        match r {
            Option::Some(i) => i < v@.len() && first_idx(views_of(v@), agent_id_is(id@)) == i as int,
            Option::None => first_idx(views_of(v@), agent_id_is(id@)) == -1,
        },
{
    let mut i: usize = 0;
    while i < v.len()
        invariant
            i <= v@.len(),
            forall|j: int| 0 <= j < i ==> #[trigger] views_of(v@)[j].id != id@,
        decreases v@.len() - i,
    {
        assert(views_of(v@)[i as int] == v@[i as int]@);
        if str_eq(v[i].id.as_str(), id) {
            proof {
                lemma_first_idx_found(views_of(v@), agent_id_is(id@), i as int);
            }
            return Option::Some(i);
        }
        i = i + 1;
    }
    proof {
        lemma_first_idx_none(views_of(v@), agent_id_is(id@));
    }
    Option::None
}

fn find_tally(v: &Vec<CompletedToolCount>, name: &str) -> (r: Option<usize>)
    ensures
        match r {
            Option::Some(i) => i < v@.len() && first_idx(views_of(v@), tally_name_is(name@)) == i as int,
            Option::None => first_idx(views_of(v@), tally_name_is(name@)) == -1,
        },
{
    let mut i: usize = 0;
    while i < v.len()
        invariant
            i <= v@.len(),
            forall|j: int| 0 <= j < i ==> #[trigger] views_of(v@)[j].name != name@,
        decreases v@.len() - i,
    {
        assert(views_of(v@)[i as int] == v@[i as int]@);
        if str_eq(v[i].name.as_str(), name) {
            proof {
                lemma_first_idx_found(views_of(v@), tally_name_is(name@), i as int);
            }
            return Option::Some(i);
        }
        i = i + 1;
    }
    proof {
        lemma_first_idx_none(views_of(v@), tally_name_is(name@));
    }
    Option::None
}

fn find_pending(v: &Vec<PendingTask>, id: &str) -> (r: Option<usize>)
    ensures
        match r {
            Option::Some(i) => i < v@.len() && first_idx(views_of(v@), pending_id_is(id@)) == i as int,
            Option::None => first_idx(views_of(v@), pending_id_is(id@)) == -1,
        },
{
    let mut i: usize = 0;
    while i < v.len()
        invariant
            i <= v@.len(),
            forall|j: int| 0 <= j < i ==> #[trigger] views_of(v@)[j].tool_use_id != id@,
        decreases v@.len() - i,
    {
        assert(views_of(v@)[i as int] == v@[i as int]@);
        if str_eq(v[i].tool_use_id.as_str(), id) {
            proof {
                lemma_first_idx_found(views_of(v@), pending_id_is(id@), i as int);
            }
            return Option::Some(i);
        }
        i = i + 1;
    }
    proof {
        lemma_first_idx_none(views_of(v@), pending_id_is(id@));
    }
    Option::None
}

fn find_link_by_key(v: &Vec<(String, String)>, key: &str) -> (r: Option<usize>)
    ensures
        match r {
            Option::Some(i) => i < v@.len() && first_idx(links_view(v@), link_key_is(key@)) == i as int,
            Option::None => first_idx(links_view(v@), link_key_is(key@)) == -1,
        },
{
    let mut i: usize = 0;
    while i < v.len()
        invariant
            i <= v@.len(),
            forall|j: int| 0 <= j < i ==> #[trigger] links_view(v@)[j].0 != key@,
        decreases v@.len() - i,
    {
        assert(links_view(v@)[i as int] == (v@[i as int].0@, v@[i as int].1@));
        if str_eq(v[i].0.as_str(), key) {
            proof {
                lemma_first_idx_found(links_view(v@), link_key_is(key@), i as int);
            }
            return Option::Some(i);
        }
        i = i + 1;
    }
    proof {
        lemma_first_idx_none(links_view(v@), link_key_is(key@));
    }
    Option::None
}

fn find_link_by_val(v: &Vec<(String, String)>, val: &str) -> (r: Option<usize>)
    ensures
        match r {
            Option::Some(i) => i < v@.len() && first_idx(links_view(v@), link_val_is(val@)) == i as int,
            Option::None => first_idx(links_view(v@), link_val_is(val@)) == -1,
        },
{
    let mut i: usize = 0;
    while i < v.len()
        invariant
            i <= v@.len(),
            forall|j: int| 0 <= j < i ==> #[trigger] links_view(v@)[j].1 != val@,
        decreases v@.len() - i,
    {
        assert(links_view(v@)[i as int] == (v@[i as int].0@, v@[i as int].1@));
        if str_eq(v[i].1.as_str(), val) {
            proof {
                lemma_first_idx_found(links_view(v@), link_val_is(val@), i as int);
            }
            return Option::Some(i);
        }
        i = i + 1;
    }
    proof {
        lemma_first_idx_none(links_view(v@), link_val_is(val@));
    }
    Option::None
}

fn find_item(v: &Vec<(String, TaskItem)>, key: &str) -> (r: Option<usize>)
    ensures
        match r {
            Option::Some(i) => i < v@.len() && first_idx(items_view(v@), item_key_is(key@)) == i as int,
            Option::None => first_idx(items_view(v@), item_key_is(key@)) == -1,
        },
{
    let mut i: usize = 0;
    while i < v.len()
        invariant
            i <= v@.len(),
            forall|j: int| 0 <= j < i ==> #[trigger] items_view(v@)[j].0 != key@,
        decreases v@.len() - i,
    {
        assert(items_view(v@)[i as int] == (v@[i as int].0@, v@[i as int].1@));
        if str_eq(v[i].0.as_str(), key) {
            proof {
                lemma_first_idx_found(items_view(v@), item_key_is(key@), i as int);
            }
            return Option::Some(i);
        }
        i = i + 1;
    }
    proof {
        lemma_first_idx_none(items_view(v@), item_key_is(key@));
    }
    Option::None
}

/// Evicts oldest completed agents until at most `MAX_COMPLETED_AGENTS` remain.
fn prune_completed(done: &mut Vec<AgentSummary>)
    ensures
        views_of(final(done)@) =~= prune_done(views_of(old(done)@)),
{
    let ghost orig = views_of(old(done)@);
    while done.len() > MAX_COMPLETED_AGENTS
        invariant
            done@.len() <= orig.len(),
            done@.len() == orig.len() || done@.len() >= MAX_COMPLETED_AGENTS,
            views_of(done@) =~= orig.skip(orig.len() - done@.len()),
        decreases done@.len(),
    {
        let ghost pre = views_of(done@);
        let ghost k = orig.len() - done@.len();
        done.remove(0);
        proof {
            assert(views_of(done@) =~= pre.drop_first());
            assert(orig.skip(k).drop_first() =~= orig.skip(k + 1));
            assert(views_of(done@) =~= orig.skip(orig.len() - done@.len()));
        }
    }
    proof {
        assert(orig.skip(0) =~= orig);
    }
}

// ---- Mutation API ----

impl SessionState {
    /// Replace-or-append an active tool; the entry moves to most-recent.
    pub fn upsert_tool(&mut self, id: String, name: String, target: Option<String>)
        ensures
            final(self)@ =~= spec_upsert_tool(old(self)@, id@, name@, ov(target)),
    {
        let ghost v0 = self@;
        let ghost gid = id@;
        let ghost gname = name@;
        let ghost gtarget = ov(target);
        match find_tool(&self.active_tools, id.as_str()) {
            Option::Some(i) => {
                self.active_tools.remove(i);
                assert(views_of(self.active_tools@) =~= v0.tools.remove(i as int));
            },
            Option::None => {},
        }
        self.active_tools.push(ToolSummary { id, name, target });
        assert(self@ =~= spec_upsert_tool(v0, gid, gname, gtarget));
    }

    /// Bumps the completion tally for `name` by one.
    pub fn record_tool_completion(&mut self, name: &str)
        ensures
            final(self)@ =~= spec_record_completion(old(self)@, name@),
    {
        let ghost v0 = self@;
        match find_tally(&self.completed_tool_counts, name) {
            Option::Some(i) => {
                let c = self.completed_tool_counts[i].count;
                let fresh = CompletedToolCount {
                    name: String::from_str(name),
                    count: if c < u32::MAX {
                        c + 1
                    } else {
                        c
                    },
                };
                self.completed_tool_counts[i] = fresh;
                assert(views_of(self.completed_tool_counts@) =~= bump_tally(v0.tallies, name@));
            },
            Option::None => {
                self.completed_tool_counts.push(
                    CompletedToolCount { name: String::from_str(name), count: 1 },
                );
                assert(views_of(self.completed_tool_counts@) =~= bump_tally(v0.tallies, name@));
            },
        }
        assert(self@ =~= spec_record_completion(v0, name@));
    }

    /// Removes a tool from the active set; if it was present, its name's
    /// completion tally is bumped by one.
    pub fn remove_tool(&mut self, id: &str)
        ensures
            final(self)@ =~= spec_remove_tool(old(self)@, id@),
    {
        let ghost v0 = self@;
        match find_tool(&self.active_tools, id) {
            Option::Some(i) => {
                let name = self.active_tools[i].name.clone();
                self.record_tool_completion(name.as_str());
            },
            Option::None => {},
        }
        let ghost v1 = self@;
        let mut kept: Vec<ToolSummary> = Vec::new();
        let mut j: usize = 0;
        while j < self.active_tools.len()
            invariant
                j <= self.active_tools@.len(),
                views_of(self.active_tools@) == v0.tools,
                views_of(kept@) =~= v0.tools.take(j as int).filter(|t: ToolV| t.id != id@),
                self@ == v1,
            decreases self.active_tools@.len() - j,
        {
            let keep = !str_eq(self.active_tools[j].id.as_str(), id);
            if keep {
                kept.push(self.active_tools[j].clone());
            }
            proof {
                assert(v0.tools.take(j + 1).drop_last() =~= v0.tools.take(j as int));
                reveal(Seq::filter);
            }
            j = j + 1;
        }
        assert(v0.tools.take(v0.tools.len() as int) =~= v0.tools);
        self.active_tools = kept;
        assert(self@ =~= spec_remove_tool(v0, id@));
    }

    /// Enqueues a pending Task link at the tail.
    pub fn push_pending_task(
        &mut self,
        tool_use_id: String,
        description: String,
        agent_type: Option<String>,
        model: Option<String>,
        event_ts: Option<u64>,
    )
        ensures
            final(self)@ =~= spec_push_pending(
                old(self)@,
                PendingV {
                    tool_use_id: tool_use_id@,
                    description: description@,
                    agent_type: ov(agent_type),
                    model: ov(model),
                    event_ts: event_ts,
                },
            ),
    {
        let ghost v0 = self@;
        let ghost gp = PendingV {
            tool_use_id: tool_use_id@,
            description: description@,
            agent_type: ov(agent_type),
            model: ov(model),
            event_ts: event_ts,
        };
        self.pending_tasks.push(
            PendingTask { tool_use_id, description, agent_type, model, event_ts },
        );
        assert(self@ =~= spec_push_pending(v0, gp));
    }

    /// FIFO-dequeues the head pending task and records its link to
    /// `agent_id`; `None` when the queue is empty.
    pub fn link_agent_to_pending_task(&mut self, agent_id: &str) -> (r: Option<PendingTask>)
        ensures
            final(self)@ =~= spec_link_agent(old(self)@, agent_id@),
            match r {
                Option::Some(p) => old(self)@.pending.len() > 0 && p@ == old(self)@.pending[0],
                Option::None => old(self)@.pending.len() == 0,
            },
    {
        let ghost v0 = self@;
        if self.pending_tasks.len() == 0 {
            return Option::None;
        }
        let p = self.pending_tasks.remove(0);
        assert(views_of(self.pending_tasks@) =~= v0.pending.drop_first());
        match find_link_by_key(&self.task_agent_links, p.tool_use_id.as_str()) {
            Option::Some(i) => {
                self.task_agent_links[i] = (p.tool_use_id.clone(), String::from_str(agent_id));
                assert(links_view(self.task_agent_links@) =~= link_upsert(
                    v0.links,
                    p.tool_use_id@,
                    agent_id@,
                ));
            },
            Option::None => {
                self.task_agent_links.push((p.tool_use_id.clone(), String::from_str(agent_id)));
                assert(links_view(self.task_agent_links@) =~= link_upsert(
                    v0.links,
                    p.tool_use_id@,
                    agent_id@,
                ));
            },
        }
        assert(self@ =~= spec_link_agent(v0, agent_id@));
        Option::Some(p)
    }

    /// Looks up the agent linked for a tool id.
    pub fn resolve_task_agent(&self, tool_use_id: &str) -> (r: Option<String>)
        ensures
            ov(r) == spec_link_lookup(self@, tool_use_id@),
    {
        match find_link_by_key(&self.task_agent_links, tool_use_id) {
            Option::Some(i) => Option::Some(self.task_agent_links[i].1.clone()),
            Option::None => Option::None,
        }
    }

    /// Removes an unlinked pending entry directly by its tool id.
    pub fn drain_pending_task(&mut self, tool_use_id: &str) -> (r: Option<PendingTask>)
        ensures
            final(self)@ =~= spec_drain_pending(old(self)@, tool_use_id@),
            ({
                let i = first_idx(old(self)@.pending, pending_id_is(tool_use_id@));
                match r {
                    Option::Some(p) => i >= 0 && p@ == old(self)@.pending[i],
                    Option::None => i == -1,
                }
            }),
    {
        let ghost v0 = self@;
        match find_pending(&self.pending_tasks, tool_use_id) {
            Option::Some(i) => {
                let p = self.pending_tasks.remove(i);
                assert(views_of(self.pending_tasks@) =~= v0.pending.remove(i as int));
                assert(self@ =~= spec_drain_pending(v0, tool_use_id@));
                Option::Some(p)
            },
            Option::None => {
                assert(self@ =~= spec_drain_pending(v0, tool_use_id@));
                Option::None
            },
        }
    }

    /// True when `agent_id` is the target of a recorded link.
    pub fn is_task_linked_agent(&self, agent_id: &str) -> (r: bool)
        ensures
            r == spec_is_linked(self@, agent_id@),
    {
        match find_link_by_val(&self.task_agent_links, agent_id) {
            Option::Some(_) => true,
            Option::None => false,
        }
    }

    /// Creates the agent if absent (with `started_at` defaulting to
    /// `now_ms`); refreshes it otherwise, keeping the recorded start and,
    /// when the call brings none, the recorded model.
    pub fn upsert_agent(
        &mut self,
        id: String,
        description: String,
        agent_type: Option<String>,
        started_at: Option<u64>,
        model: Option<String>,
        now_ms: u64,
    )
        ensures
            final(self)@ =~= spec_upsert_agent(
                old(self)@,
                id@,
                description@,
                ov(agent_type),
                started_at,
                ov(model),
                now_ms,
            ),
    {
        let ghost v0 = self@;
        let ghost gid = id@;
        let ghost gdesc = description@;
        let ghost gty = ov(agent_type);
        let ghost gmodel = ov(model);
        match find_agent(&self.active_agents, id.as_str()) {
            Option::Some(i) => {
                let prev = self.active_agents.remove(i);
                assert(views_of(self.active_agents@) =~= v0.agents.remove(i as int));
                let kept_model = match model {
                    Option::Some(m) => Option::Some(m),
                    Option::None => prev.model,
                };
                self.active_agents.push(
                    AgentSummary {
                        id,
                        description,
                        agent_type,
                        started_at: prev.started_at,
                        model: kept_model,
                        completed_at: Option::None,
                    },
                );
                assert(self@ =~= spec_upsert_agent(v0, gid, gdesc, gty, started_at, gmodel, now_ms));
            },
            Option::None => {
                let st = match started_at {
                    Option::Some(t) => Option::Some(t),
                    Option::None => Option::Some(now_ms),
                };
                self.active_agents.push(
                    AgentSummary {
                        id,
                        description,
                        agent_type,
                        started_at: st,
                        model,
                        completed_at: Option::None,
                    },
                );
                assert(self@ =~= spec_upsert_agent(v0, gid, gdesc, gty, started_at, gmodel, now_ms));
            },
        }
    }

    /// Moves an active agent to the completed list with `now_ms` as its
    /// completion time; the completed list keeps only the newest
    /// `MAX_COMPLETED_AGENTS` entries.
    pub fn remove_agent(&mut self, id: &str, now_ms: u64)
        ensures
            final(self)@ =~= spec_remove_agent(old(self)@, id@, now_ms),
    {
        let ghost v0 = self@;
        match find_agent(&self.active_agents, id) {
            Option::Some(i) => {
                let mut agent = self.active_agents.remove(i);
                assert(views_of(self.active_agents@) =~= v0.agents.remove(i as int));
                agent.completed_at = Option::Some(now_ms);
                assert(agent@ == AgentV {
                    completed_at: Option::Some(now_ms),
                    ..v0.agents[i as int]
                });
                let ghost ga = agent@;
                self.completed_agents.push(agent);
                assert(views_of(self.completed_agents@) =~= v0.done_agents.push(ga));
                prune_completed(&mut self.completed_agents);
                assert(self@ =~= spec_remove_agent(v0, id@, now_ms));
            },
            Option::None => {
                assert(self@ =~= spec_remove_agent(v0, id@, now_ms));
            },
        }
    }

    /// True when `id` names a currently active agent.
    pub fn has_active_agent(&self, id: &str) -> (r: bool)
        ensures
            r == (first_idx(self@.agents, agent_id_is(id@)) >= 0),
    {
        match find_agent(&self.active_agents, id) {
            Option::Some(_) => true,
            Option::None => false,
        }
    }

    /// Overwrites the todo aggregate (legacy whole-summary path).
    pub fn set_todo(&mut self, todo: Option<TodoSummary>)
        ensures
            final(self)@ =~= spec_set_todo(old(self)@, opt_todo_v(todo)),
    {
        let ghost gt = opt_todo_v(todo);
        let ghost v0 = self@;
        self.todo = todo;
        assert(self@ =~= spec_set_todo(v0, gt));
    }

    /// Replays the todo aggregate from the full item map.
    fn rebuild_todo_from_tasks(&mut self)
        ensures
            final(self)@ =~= spec_rebuild_todo(old(self)@),
    {
        let ghost v0 = self@;
        let total = self.task_items.len();
        if total == 0 {
            self.todo = Option::None;
            assert(self@ =~= spec_rebuild_todo(v0));
            return;
        }
        let completed = count_completed_exec(&self.task_items);
        proof {
            lemma_count_completed_le(items_view(self.task_items@));
        }
        let pending = total - completed;
        if pending == 0 {
            self.todo = Option::None;
            assert(self@ =~= spec_rebuild_todo(v0));
            return;
        }
        let mut t: Vec<char> = Vec::new();
        push_dec(completed as u64, &mut t);
        let mut part = str_chars("/");
        t.append(&mut part);
        push_dec(total as u64, &mut t);
        let mut part2 = str_chars(" done, ");
        t.append(&mut part2);
        push_dec(pending as u64, &mut t);
        let mut part3 = str_chars(" pending");
        t.append(&mut part3);
        let text = chars_to_string(&t);
        self.todo = Option::Some(TodoSummary { text, pending, completed, total });
        assert(self@.todo matches Option::Some(td) && td.text =~= dec_of(completed as nat)
            + "/"@ + dec_of(total as nat) + " done, "@ + dec_of(pending as nat) + " pending"@);
        assert(self@ =~= spec_rebuild_todo(v0));
    }

    /// Creates a new task item with a fresh counter-derived id and status
    /// "pending", then recomputes the todo aggregate.
    pub fn create_task_item(&mut self, subject: String, active_form: Option<String>)
        ensures
            final(self)@ =~= spec_create_task_item(old(self)@, subject@, ov(active_form)),
    {
        let ghost v0 = self@;
        let ghost gsub = subject@;
        let ghost gform = ov(active_form);
        let c = if self.task_counter < u32::MAX {
            self.task_counter + 1
        } else {
            self.task_counter
        };
        self.task_counter = c;
        let id = u64_to_string(c as u64);
        let item = TaskItem { subject, active_form, status: String::from_str("pending") };
        let ghost gitem = item@;
        match find_item(&self.task_items, id.as_str()) {
            Option::Some(i) => {
                self.task_items[i] = (id, item);
                assert(items_view(self.task_items@) =~= item_upsert(v0.items, dec_of(c as nat), gitem));
            },
            Option::None => {
                self.task_items.push((id, item));
                assert(items_view(self.task_items@) =~= item_upsert(v0.items, dec_of(c as nat), gitem));
            },
        }
        self.rebuild_todo_from_tasks();
        assert(self@ =~= spec_create_task_item(v0, gsub, gform));
    }

    /// Applies a status change: "deleted" removes the item, any other
    /// status replaces the item's status in place; the todo aggregate is
    /// recomputed either way.
    pub fn update_task_item(&mut self, task_id: &str, status: &str)
        ensures
            final(self)@ =~= spec_update_task_item(old(self)@, task_id@, status@),
    {
        let ghost v0 = self@;
        if str_eq(status, "deleted") {
            let mut kept: Vec<(String, TaskItem)> = Vec::new();
            let mut j: usize = 0;
            while j < self.task_items.len()
                invariant
                    j <= self.task_items@.len(),
                    items_view(self.task_items@) == v0.items,
                    self@ == v0,
                    items_view(kept@) =~= v0.items.take(j as int).filter(
                        |p: (Seq<char>, TaskItemV)| p.0 != task_id@,
                    ),
                decreases self.task_items@.len() - j,
            {
                assert(items_view(self.task_items@)[j as int] == (
                    self.task_items@[j as int].0@,
                    self.task_items@[j as int].1@,
                ));
                let keep = !str_eq(self.task_items[j].0.as_str(), task_id);
                if keep {
                    let key = self.task_items[j].0.clone();
                    let it = self.task_items[j].1.clone();
                    kept.push((key, it));
                }
                proof {
                    assert(v0.items.take(j + 1).drop_last() =~= v0.items.take(j as int));
                    reveal(Seq::filter);
                }
                j = j + 1;
            }
            assert(v0.items.take(v0.items.len() as int) =~= v0.items);
            self.task_items = kept;
            self.rebuild_todo_from_tasks();
            assert(self@ =~= spec_update_task_item(v0, task_id@, status@));
        } else {
            match find_item(&self.task_items, task_id) {
                Option::Some(i) => {
                    let key = self.task_items[i].0.clone();
                    let prev = self.task_items[i].1.clone();
                    let fresh = TaskItem {
                        subject: prev.subject,
                        active_form: prev.active_form,
                        status: String::from_str(status),
                    };
                    self.task_items[i] = (key, fresh);
                    assert(items_view(self.task_items@) =~= v0.items.update(
                        i as int,
                        (v0.items[i as int].0, TaskItemV { status: status@, ..v0.items[i as int].1 }),
                    ));
                },
                Option::None => {},
            }
            self.rebuild_todo_from_tasks();
            assert(self@ =~= spec_update_task_item(v0, task_id@, status@));
        }
    }

    /// A change of transcript path resets offset and every derived fact;
    /// the environment/git snapshots are kept.
    pub fn reset_transcript_if_path_changed(&mut self, transcript_path: &str)
        ensures
            final(self)@ =~= if old(self)@.path == Option::Some(transcript_path@) {
                old(self)@
            } else {
                spec_reset_for_path(old(self)@, transcript_path@)
            },
    {
        let ghost v0 = self@;
        let same = match &self.last_transcript_path {
            Option::Some(p) => str_eq(p.as_str(), transcript_path),
            Option::None => false,
        };
        if !same {
            self.last_transcript_path = Option::Some(String::from_str(transcript_path));
            self.last_transcript_offset = 0;
            self.last_transcript_poll_ms = Option::None;
            self.active_tools = Vec::new();
            self.active_agents = Vec::new();
            self.completed_agents = Vec::new();
            self.completed_tool_counts = Vec::new();
            self.todo = Option::None;
            self.pending_tasks = Vec::new();
            self.task_agent_links = Vec::new();
            self.task_items = Vec::new();
            self.task_counter = 0;
            self.cached_line3 = Option::None;
            assert(self@ =~= spec_reset_for_path(v0, transcript_path@));
        }
    }

    /// The cached environment snapshot, if it belongs to this directory.
    pub fn cached_env_for(&self, cwd: &str) -> (r: Option<EnvSnapshot>)
        ensures
            r == spec_cached_env_for(self@, cwd@),
    {
        match &self.cached_env {
            Option::Some(entry) => {
                if str_eq(entry.0.as_str(), cwd) {
                    Option::Some(entry.1)
                } else {
                    Option::None
                }
            },
            Option::None => Option::None,
        }
    }

    pub fn set_cached_env(&mut self, cwd: String, snapshot: EnvSnapshot)
        ensures
            final(self)@ =~= (StateV { env: Option::Some((cwd@, snapshot)), ..old(self)@ }),
    {
        let ghost v0 = self@;
        let ghost gc = cwd@;
        self.cached_env = Option::Some((cwd, snapshot));
        assert(self@ =~= StateV { env: Option::Some((gc, snapshot)), ..v0 });
    }

    /// The cached git snapshot, if it belongs to this directory.
    pub fn cached_git_for(&self, cwd: &str) -> (r: Option<GitSnapshot>)
        ensures
            match r {
                Option::Some(g) => spec_cached_git_for(self@, cwd@) == Option::Some(g@),
                Option::None => spec_cached_git_for(self@, cwd@) is None,
            },
    {
        match &self.cached_git {
            Option::Some(entry) => {
                if str_eq(entry.0.as_str(), cwd) {
                    Option::Some(entry.1.clone())
                } else {
                    Option::None
                }
            },
            Option::None => Option::None,
        }
    }

    pub fn set_cached_git(&mut self, cwd: String, snapshot: GitSnapshot)
        ensures
            final(self)@ =~= (StateV { git: Option::Some((cwd@, snapshot@)), ..old(self)@ }),
    {
        let ghost v0 = self@;
        let ghost gc = cwd@;
        let ghost gs = snapshot@;
        self.cached_git = Option::Some((cwd, snapshot));
        assert(self@ =~= StateV { git: Option::Some((gc, gs)), ..v0 });
    }
}

/// Completed items in the task map.
fn count_completed_exec(items: &Vec<(String, TaskItem)>) -> (r: usize)
    ensures
        r == count_completed(items_view(items@)),
        r <= items@.len(),
{
    let mut completed: usize = 0;
    let mut i: usize = 0;
    while i < items.len()
        invariant
            i <= items@.len(),
            completed <= i,
            completed == count_completed(items_view(items@).take(i as int)),
        decreases items@.len() - i,
    {
        assert(items_view(items@)[i as int] == (items@[i as int].0@, items@[i as int].1@));
        proof {
            assert(items_view(items@).take(i + 1).drop_last() =~= items_view(items@).take(i as int));
        }
        if str_eq(items[i].1.status.as_str(), "completed") {
            completed = completed + 1;
        }
        i = i + 1;
    }
    assert(items_view(items@).take(items@.len() as int) =~= items_view(items@));
    completed
}

pub proof fn lemma_count_completed_le(s: Seq<(Seq<char>, TaskItemV)>)
    ensures
        count_completed(s) <= s.len(),
    decreases s.len(),
{
    if s.len() > 0 {
        lemma_count_completed_le(s.drop_last());
    }
}

/// The cached environment snapshot keyed by directory.
pub open spec fn spec_cached_env_for(v: StateV, cwd: Seq<char>) -> Option<EnvSnapshot> {
    match v.env {
        Option::Some(entry) => if entry.0 == cwd {
            Option::Some(entry.1)
        } else {
            Option::None
        },
        Option::None => Option::None,
    }
}

/// The cached git snapshot keyed by directory.
pub open spec fn spec_cached_git_for(v: StateV, cwd: Seq<char>) -> Option<GitV> {
    match v.git {
        Option::Some(entry) => if entry.0 == cwd {
            Option::Some(entry.1)
        } else {
            Option::None
        },
        Option::None => Option::None,
    }
}


// ---- Ordering of display projections ----

/// Lexicographic (code-point) strict order on character sequences.
pub open spec fn str_lt(a: Seq<char>, b: Seq<char>) -> bool
    decreases a.len(),
{
    if b.len() == 0 {
        false
    } else if a.len() == 0 {
        true
    } else if a[0] < b[0] {
        true
    } else if b[0] < a[0] {
        false
    } else {
        str_lt(a.drop_first(), b.drop_first())
    }
}

proof fn lemma_str_lt_step(a: Seq<char>, b: Seq<char>, i: int)
    requires
        0 <= i < a.len(),
        i < b.len(),
        a[i] == b[i],
    ensures
        str_lt(a.skip(i), b.skip(i)) == str_lt(a.skip(i + 1), b.skip(i + 1)),
{
    assert(a.skip(i).drop_first() =~= a.skip(i + 1));
    assert(b.skip(i).drop_first() =~= b.skip(i + 1));
    assert(a.skip(i)[0] == a[i]);
    assert(b.skip(i)[0] == b[i]);
}

pub fn str_lt_exec(a: &str, b: &str) -> (r: bool)
    ensures
        r == str_lt(a@, b@),
{
    let av = str_chars(a);
    let bv = str_chars(b);
    assert(a@.skip(0) =~= a@);
    assert(b@.skip(0) =~= b@);
    let mut i: usize = 0;
    while i < av.len() && i < bv.len()
        invariant
            av@ == a@,
            bv@ == b@,
            i <= av@.len(),
            i <= bv@.len(),
            str_lt(a@, b@) == str_lt(a@.skip(i as int), b@.skip(i as int)),
        decreases av@.len() - i,
    {
        let x = av[i];
        let y = bv[i];
        if x < y {
            assert(a@.skip(i as int)[0] == x && b@.skip(i as int)[0] == y);
            return true;
        }
        if y < x {
            assert(a@.skip(i as int)[0] == x && b@.skip(i as int)[0] == y);
            return false;
        }
        proof {
            lemma_str_lt_step(a@, b@, i as int);
        }
        i = i + 1;
    }
    assert(a@.skip(i as int).len() == a@.len() - i);
    assert(b@.skip(i as int).len() == b@.len() - i);
    i < bv.len()
}

/// "Comes first in the completed-tool ranking": higher count first, ties
/// by name ascending.
pub open spec fn tally_before(a: TallyV, b: TallyV) -> bool {
    a.count > b.count || (a.count == b.count && str_lt(a.name, b.name))
}

fn tally_before_exec(a: &CompletedToolCount, b: &CompletedToolCount) -> (r: bool)
    ensures
        r == tally_before(a@, b@),
{
    a.count > b.count || (a.count == b.count && str_lt_exec(a.name.as_str(), b.name.as_str()))
}

/// Stable insertion of `x` after every element it does not rank before.
pub open spec fn insert_tally(s: Seq<TallyV>, x: TallyV) -> Seq<TallyV>
    decreases s.len(),
{
    if s.len() == 0 {
        seq![x]
    } else if tally_before(x, s[0]) {
        seq![x] + s
    } else {
        seq![s[0]] + insert_tally(s.drop_first(), x)
    }
}

/// The ranking of the completion tallies: stable insertion sort, left to
/// right.
pub open spec fn sort_tallies(s: Seq<TallyV>) -> Seq<TallyV>
    decreases s.len(),
{
    if s.len() == 0 {
        Seq::empty()
    } else {
        insert_tally(sort_tallies(s.drop_last()), s.last())
    }
}

proof fn lemma_insert_tally_at(s: Seq<TallyV>, x: TallyV, j: int)
    requires
        0 <= j <= s.len(),
        forall|k: int| 0 <= k < j ==> !tally_before(x, #[trigger] s[k]),
        j < s.len() ==> tally_before(x, s[j]),
    ensures
        insert_tally(s, x) =~= s.take(j) + seq![x] + s.skip(j),
    decreases s.len(),
{
    if s.len() == 0 {
        assert(insert_tally(s, x) =~= s.take(j) + seq![x] + s.skip(j));
    } else if tally_before(x, s[0]) {
        assert(j == 0);
        assert(insert_tally(s, x) =~= s.take(0) + seq![x] + s.skip(0));
    } else {
        assert(j >= 1);
        assert forall|k: int| 0 <= k < j - 1 implies !tally_before(x, #[trigger] s.drop_first()[k]) by {
            assert(s.drop_first()[k] == s[k + 1]);
        }
        assert(j - 1 < s.drop_first().len() ==> tally_before(x, s.drop_first()[j - 1]));
        lemma_insert_tally_at(s.drop_first(), x, j - 1);
        assert(insert_tally(s, x) =~= s.take(j) + seq![x] + s.skip(j));
    }
}

fn tally_insert_pos(out: &Vec<CompletedToolCount>, x: &CompletedToolCount) -> (r: usize)
    ensures
        r <= out@.len(),
        forall|k: int| 0 <= k < r ==> !tally_before(x@, #[trigger] views_of(out@)[k]),
        r < out@.len() ==> tally_before(x@, views_of(out@)[r as int]),
{
    let mut j: usize = 0;
    while j < out.len() && !tally_before_exec(x, &out[j])
        invariant
            j <= out@.len(),
            forall|k: int| 0 <= k < j ==> !tally_before(x@, #[trigger] views_of(out@)[k]),
        decreases out@.len() - j,
    {
        assert(views_of(out@)[j as int] == out@[j as int]@);
        j = j + 1;
    }
    if j < out.len() {
        assert(views_of(out@)[j as int] == out@[j as int]@);
    }
    j
}

/// The most recent `max` entries, newest kept at the tail; empty when
/// `max` is zero.
pub open spec fn spec_capped<T>(s: Seq<T>, max: usize) -> Seq<T> {
    if max == 0 {
        Seq::empty()
    } else if s.len() > max {
        s.skip(s.len() - max)
    } else {
        s
    }
}

/// "Comes first among completed agents": completed later first; a missing
/// completion time sorts last.
pub open spec fn done_before(a: AgentV, b: AgentV) -> bool {
    match (a.completed_at, b.completed_at) {
        (Option::Some(x), Option::Some(y)) => x > y,
        (Option::Some(_), Option::None) => true,
        (Option::None, _) => false,
    }
}

fn done_before_exec(a: &AgentSummary, b: &AgentSummary) -> (r: bool)
    ensures
        r == done_before(a@, b@),
{
    match (&a.completed_at, &b.completed_at) {
        (Option::Some(x), Option::Some(y)) => *x > *y,
        (Option::Some(_), Option::None) => true,
        (Option::None, _) => false,
    }
}

pub open spec fn insert_done(s: Seq<AgentV>, x: AgentV) -> Seq<AgentV>
    decreases s.len(),
{
    if s.len() == 0 {
        seq![x]
    } else if done_before(x, s[0]) {
        seq![x] + s
    } else {
        seq![s[0]] + insert_done(s.drop_first(), x)
    }
}

/// Completed agents ranked most recent first: stable insertion sort.
pub open spec fn sort_done(s: Seq<AgentV>) -> Seq<AgentV>
    decreases s.len(),
{
    if s.len() == 0 {
        Seq::empty()
    } else {
        insert_done(sort_done(s.drop_last()), s.last())
    }
}

proof fn lemma_insert_done_at(s: Seq<AgentV>, x: AgentV, j: int)
    requires
        0 <= j <= s.len(),
        forall|k: int| 0 <= k < j ==> !done_before(x, #[trigger] s[k]),
        j < s.len() ==> done_before(x, s[j]),
    ensures
        insert_done(s, x) =~= s.take(j) + seq![x] + s.skip(j),
    decreases s.len(),
{
    if s.len() == 0 {
        assert(insert_done(s, x) =~= s.take(j) + seq![x] + s.skip(j));
    } else if done_before(x, s[0]) {
        assert(j == 0);
        assert(insert_done(s, x) =~= s.take(0) + seq![x] + s.skip(0));
    } else {
        assert(j >= 1);
        assert forall|k: int| 0 <= k < j - 1 implies !done_before(x, #[trigger] s.drop_first()[k]) by {
            assert(s.drop_first()[k] == s[k + 1]);
        }
        assert(j - 1 < s.drop_first().len() ==> done_before(x, s.drop_first()[j - 1]));
        lemma_insert_done_at(s.drop_first(), x, j - 1);
        assert(insert_done(s, x) =~= s.take(j) + seq![x] + s.skip(j));
    }
}

fn done_insert_pos(out: &Vec<AgentSummary>, x: &AgentSummary) -> (r: usize)
    ensures
        r <= out@.len(),
        forall|k: int| 0 <= k < r ==> !done_before(x@, #[trigger] views_of(out@)[k]),
        r < out@.len() ==> done_before(x@, views_of(out@)[r as int]),
{
    let mut j: usize = 0;
    while j < out.len() && !done_before_exec(x, &out[j])
        invariant
            j <= out@.len(),
            forall|k: int| 0 <= k < j ==> !done_before(x@, #[trigger] views_of(out@)[k]),
        decreases out@.len() - j,
    {
        assert(views_of(out@)[j as int] == out@[j as int]@);
        j = j + 1;
    }
    if j < out.len() {
        assert(views_of(out@)[j as int] == out@[j as int]@);
    }
    j
}


fn push_tail_tool(src: &Vec<ToolSummary>, start: usize, i: usize, out: &mut Vec<ToolSummary>)
    requires
        start <= i < src@.len(),
        views_of(old(out)@) =~= views_of(src@).subrange(start as int, i as int),
    ensures
        views_of(final(out)@) =~= views_of(src@).subrange(start as int, i as int + 1),
{
    let x = src[i].clone();
    assert(x@ == views_of(src@)[i as int]);
    let ghost prev = out@;
    out.push(x);
    proof {
        let lhs = views_of(out@);
        let rhs = views_of(src@).subrange(start as int, i as int + 1);
        assert(out@ == prev.push(x));
        assert(views_of(prev) == views_of(src@).subrange(start as int, i as int));
        assert(views_of(prev).len() == prev.len());
        assert(views_of(src@).subrange(start as int, i as int).len() == i - start);
        assert(prev.len() == i - start);
        assert forall|k: int| 0 <= k < lhs.len() implies lhs[k] == rhs[k] by {
            if k < prev.len() {
                assert(out@[k] == prev[k]);
            } else {
                assert(out@[k] == x);
            }
        }
        assert(lhs =~= rhs);
    }
}

fn push_tail_agent(src: &Vec<AgentSummary>, start: usize, i: usize, out: &mut Vec<AgentSummary>)
    requires
        start <= i < src@.len(),
        views_of(old(out)@) =~= views_of(src@).subrange(start as int, i as int),
    ensures
        views_of(final(out)@) =~= views_of(src@).subrange(start as int, i as int + 1),
{
    let x = src[i].clone();
    assert(x@ == views_of(src@)[i as int]);
    let ghost prev = out@;
    out.push(x);
    proof {
        let lhs = views_of(out@);
        let rhs = views_of(src@).subrange(start as int, i as int + 1);
        assert(out@ == prev.push(x));
        assert(views_of(prev) == views_of(src@).subrange(start as int, i as int));
        assert(views_of(prev).len() == prev.len());
        assert(views_of(src@).subrange(start as int, i as int).len() == i - start);
        assert(prev.len() == i - start);
        assert forall|k: int| 0 <= k < lhs.len() implies lhs[k] == rhs[k] by {
            if k < prev.len() {
                assert(out@[k] == prev[k]);
            } else {
                assert(out@[k] == x);
            }
        }
        assert(lhs =~= rhs);
    }
}

fn push_one_agent(src: &Vec<AgentSummary>, j: usize, out: &mut Vec<AgentSummary>)
    requires
        j < src@.len(),
    ensures
        views_of(final(out)@) =~= views_of(old(out)@) + seq![views_of(src@)[j as int]],
{
    let x = src[j].clone();
    assert(x@ == views_of(src@)[j as int]);
    let ghost prev = out@;
    out.push(x);
    proof {
        let lhs = views_of(out@);
        let rhs = views_of(prev) + seq![views_of(src@)[j as int]];
        assert(out@ == prev.push(x));
        assert forall|k: int| 0 <= k < lhs.len() implies lhs[k] == rhs[k] by {
            if k < prev.len() {
                assert(out@[k] == prev[k]);
            } else {
                assert(out@[k] == x);
            }
        }
        assert(lhs =~= rhs);
    }
}

// ---- Display projections ----

pub open spec fn take_at_most<T>(s: Seq<T>, max: int) -> Seq<T> {
    if max < s.len() {
        s.take(max)
    } else {
        s
    }
}

/// Active agents first (most recent `max`), then completed agents most
/// recent first, to at most `max` rows in all.
pub open spec fn spec_agents_for_display(v: StateV, max: usize) -> Seq<AgentV> {
    if max == 0 {
        Seq::empty()
    } else {
        let act = spec_capped(v.agents, max);
        act + take_at_most(sort_done(v.done_agents), max - act.len())
    }
}

impl SessionState {
    /// The most recent `max_lines` running tools.
    pub fn capped_tools(&self, max_lines: usize) -> (r: Vec<ToolSummary>)
        ensures
            views_of(r@) =~= spec_capped(self@.tools, max_lines),
    {
        let mut out: Vec<ToolSummary> = Vec::new();
        if max_lines == 0 {
            return out;
        }
        let n = self.active_tools.len();
        let start = if n > max_lines {
            n - max_lines
        } else {
            0
        };
        let mut i: usize = start;
        while i < n
            invariant
                start <= i <= n,
                n == self.active_tools@.len(),
                views_of(out@) =~= views_of(self.active_tools@).subrange(start as int, i as int),
            decreases n - i,
        {
            push_tail_tool(&self.active_tools, start, i, &mut out);
            i = i + 1;
        }
        assert(views_of(self.active_tools@).subrange(start as int, n as int) =~= spec_capped(
            self@.tools,
            max_lines,
        ));
        out
    }

    /// The most recent `max_lines` active agents.
    pub fn capped_agents(&self, max_lines: usize) -> (r: Vec<AgentSummary>)
        ensures
            views_of(r@) =~= spec_capped(self@.agents, max_lines),
    {
        let mut out: Vec<AgentSummary> = Vec::new();
        if max_lines == 0 {
            return out;
        }
        let n = self.active_agents.len();
        let start = if n > max_lines {
            n - max_lines
        } else {
            0
        };
        let mut i: usize = start;
        while i < n
            invariant
                start <= i <= n,
                n == self.active_agents@.len(),
                views_of(out@) =~= views_of(self.active_agents@).subrange(start as int, i as int),
            decreases n - i,
        {
            push_tail_agent(&self.active_agents, start, i, &mut out);
            i = i + 1;
        }
        assert(views_of(self.active_agents@).subrange(start as int, n as int) =~= spec_capped(
            self@.agents,
            max_lines,
        ));
        out
    }

    /// The completion tallies ranked by count descending then name
    /// ascending, capped to `max` rows.
    pub fn top_completed_tools(&self, max: usize) -> (r: Vec<CompletedToolCount>)
        ensures
            views_of(r@) =~= take_at_most(sort_tallies(self@.tallies), max as int),
    {
        let mut out: Vec<CompletedToolCount> = Vec::new();
        let mut k: usize = 0;
        while k < self.completed_tool_counts.len()
            invariant
                k <= self.completed_tool_counts@.len(),
                views_of(out@) =~= sort_tallies(views_of(self.completed_tool_counts@).take(
                    k as int,
                )),
            decreases self.completed_tool_counts@.len() - k,
        {
            let x = self.completed_tool_counts[k].clone();
            let ghost gx = x@;
            assert(gx == views_of(self.completed_tool_counts@)[k as int]);
            let pos = tally_insert_pos(&out, &x);
            let ghost sv = views_of(out@);
            out.insert(pos, x);
            proof {
                lemma_insert_tally_at(sv, gx, pos as int);
                assert(views_of(out@) =~= sv.take(pos as int) + seq![gx] + sv.skip(pos as int));
                assert(views_of(out@) =~= insert_tally(sv, gx));
                let taken = views_of(self.completed_tool_counts@).take(k + 1);
                assert(taken.drop_last() =~= views_of(self.completed_tool_counts@).take(k as int));
                assert(taken.last() == gx);
                assert(views_of(out@) =~= sort_tallies(taken));
            }
            k = k + 1;
        }
        assert(views_of(self.completed_tool_counts@).take(
            self.completed_tool_counts@.len() as int,
        ) =~= self@.tallies);
        out.truncate(max);
        assert(views_of(out@) =~= take_at_most(sort_tallies(self@.tallies), max as int));
        out
    }

    /// Agents for the display: running agents first (most recent `max_total`),
    /// remaining rows filled with completed agents, most recently completed
    /// first.
    pub fn agents_for_display(&self, max_total: usize) -> (r: Vec<AgentSummary>)
        ensures
            views_of(r@) =~= spec_agents_for_display(self@, max_total),
    {
        let mut out: Vec<AgentSummary> = Vec::new();
        if max_total == 0 {
            return out;
        }
        out = self.capped_agents(max_total);
        let ghost act = views_of(out@);
        let remaining = max_total - out.len();
        let mut sorted: Vec<AgentSummary> = Vec::new();
        let mut k: usize = 0;
        while k < self.completed_agents.len()
            invariant
                k <= self.completed_agents@.len(),
                views_of(sorted@) =~= sort_done(views_of(self.completed_agents@).take(k as int)),
            decreases self.completed_agents@.len() - k,
        {
            let x = self.completed_agents[k].clone();
            let ghost gx = x@;
            assert(gx == views_of(self.completed_agents@)[k as int]);
            let pos = done_insert_pos(&sorted, &x);
            let ghost sv = views_of(sorted@);
            sorted.insert(pos, x);
            proof {
                lemma_insert_done_at(sv, gx, pos as int);
                assert(views_of(sorted@) =~= sv.take(pos as int) + seq![gx] + sv.skip(pos as int));
                assert(views_of(sorted@) =~= insert_done(sv, gx));
                let taken = views_of(self.completed_agents@).take(k + 1);
                assert(taken.drop_last() =~= views_of(self.completed_agents@).take(k as int));
                assert(taken.last() == gx);
                assert(views_of(sorted@) =~= sort_done(taken));
            }
            k = k + 1;
        }
        assert(views_of(self.completed_agents@).take(self.completed_agents@.len() as int)
            =~= self@.done_agents);
        let ghost sorted_v = views_of(sorted@);
        let mut j: usize = 0;
        while j < sorted.len() && j < remaining
            invariant
                j <= sorted@.len(),
                j <= remaining,
                views_of(sorted@) == sorted_v,
                views_of(out@) =~= act + sorted_v.take(j as int),
            decreases sorted@.len() - j,
        {
            push_one_agent(&sorted, j, &mut out);
            assert(views_of(out@) =~= act + sorted_v.take(j + 1));
            j = j + 1;
        }
        assert(sorted_v.take(sorted_v.len() as int) =~= sorted_v);
        assert(views_of(out@) =~= act + take_at_most(sorted_v, remaining as int));
        assert(views_of(out@) =~= spec_agents_for_display(self@, max_total));
        out
    }
}


// ---- Laws of the mutation API ----

/// The count recorded for `name`, zero when no tally row exists.
pub open spec fn tally_count(tallies: Seq<TallyV>, name: Seq<char>) -> u32 {
    let i = first_idx(tallies, tally_name_is(name));
    if i >= 0 {
        tallies[i].count
    } else {
        0
    }
}

/// The recorded link for a tool id, over a bare link list.
pub open spec fn lookup_links(links: Seq<(Seq<char>, Seq<char>)>, key: Seq<char>) -> Option<Seq<char>> {
    let i = first_idx(links, link_key_is(key));
    if i >= 0 {
        Option::Some(links[i].1)
    } else {
        Option::None
    }
}

proof fn lemma_link_upsert_lookup(links: Seq<(Seq<char>, Seq<char>)>, key: Seq<char>, val: Seq<char>)
    ensures
        lookup_links(link_upsert(links, key, val), key) == Option::Some(val),
{
    let p = link_key_is(key);
    assert(lookup_links(links, key) == (if first_idx(links, link_key_is(key)) >= 0 {
        Option::Some(links[first_idx(links, link_key_is(key))].1)
    } else {
        Option::<Seq<char>>::None
    }));
    assert(first_idx(links, p) == first_idx(links, link_key_is(key)));
    lemma_first_idx_props(links, p);
    let i = first_idx(links, p);
    if i >= 0 {
        let u = links.update(i, (key, val));
        assert forall|j: int| 0 <= j < i implies !p(#[trigger] u[j]) by {
            assert(u[j] == links[j]);
        }
        assert(p(u[i]));
        lemma_first_idx_found(u, p, i);
    } else {
        let u = links.push((key, val));
        assert forall|j: int| 0 <= j < links.len() implies !p(#[trigger] u[j]) by {
            assert(u[j] == links[j]);
        }
        assert(p(u[links.len() as int]));
        lemma_first_idx_found(u, p, links.len() as int);
    }
}

proof fn lemma_link_upsert_other(
    links: Seq<(Seq<char>, Seq<char>)>,
    key: Seq<char>,
    val: Seq<char>,
    other: Seq<char>,
)
    requires
        other != key,
    ensures
        lookup_links(link_upsert(links, key, val), other) == lookup_links(links, other),
{
    let p = link_key_is(other);
    let q = link_key_is(key);
    lemma_first_idx_props(links, p);
    lemma_first_idx_props(links, q);
    let io = first_idx(links, p);
    let ik = first_idx(links, q);
    if ik >= 0 {
        let u = links.update(ik, (key, val));
        if io >= 0 {
            assert(io != ik);
            assert(p(u[io]));
            assert forall|j: int| 0 <= j < io implies !p(#[trigger] u[j]) by {
                if j == ik {
                    assert(u[j].0 == key);
                } else {
                    assert(u[j] == links[j]);
                }
            }
            lemma_first_idx_found(u, p, io);
            assert(u[io] == links[io]);
        } else {
            assert forall|j: int| 0 <= j < u.len() implies !p(#[trigger] u[j]) by {
                if j == ik {
                    assert(u[j].0 == key);
                } else {
                    assert(u[j] == links[j]);
                }
            }
            lemma_first_idx_none(u, p);
        }
    } else {
        let u = links.push((key, val));
        if io >= 0 {
            assert(p(u[io]));
            assert forall|j: int| 0 <= j < io implies !p(#[trigger] u[j]) by {
                assert(u[j] == links[j]);
            }
            lemma_first_idx_found(u, p, io);
            assert(u[io] == links[io]);
        } else {
            assert forall|j: int| 0 <= j < u.len() implies !p(#[trigger] u[j]) by {
                if j < links.len() {
                    assert(u[j] == links[j]);
                }
            }
            lemma_first_idx_none(u, p);
        }
    }
}

/// FIFO linking: with (at least) two queued Task links whose tool ids
/// differ, two successive progress-stream link consumptions for fresh
/// agent ids `x` then `y` dequeue strictly in order and record exactly
/// the links first-task-to-x and second-task-to-y.
pub proof fn lemma_fifo_linking(v: StateV, x: Seq<char>, y: Seq<char>)
    requires
        v.pending.len() >= 2,
        v.pending[0].tool_use_id != v.pending[1].tool_use_id,
    ensures
        ({
            let v2 = spec_link_agent(spec_link_agent(v, x), y);
            &&& spec_link_lookup(v2, v.pending[0].tool_use_id) == Option::Some(x)
            &&& spec_link_lookup(v2, v.pending[1].tool_use_id) == Option::Some(y)
            &&& v2.pending =~= v.pending.skip(2)
        }),
{
    let a = v.pending[0].tool_use_id;
    let b = v.pending[1].tool_use_id;
    let v1 = spec_link_agent(v, x);
    assert(v1.pending == v.pending.drop_first());
    assert(v1.pending[0] == v.pending[1]);
    assert(v1.links == link_upsert(v.links, a, x));
    let v2 = spec_link_agent(v1, y);
    assert(v2.links == link_upsert(v1.links, b, y));
    lemma_link_upsert_lookup(v.links, a, x);
    lemma_link_upsert_other(v1.links, b, y, a);
    lemma_link_upsert_lookup(v1.links, b, y);
    assert(v2.pending =~= v.pending.skip(2));
}

/// Active-tool ids are pairwise distinct.
pub open spec fn tools_unique(s: Seq<ToolV>) -> bool {
    forall|i: int, j: int| 0 <= i < j < s.len() ==> (#[trigger] s[i]).id != (#[trigger] s[j]).id
}

/// Upserting preserves uniqueness of active-tool ids.
pub proof fn lemma_upsert_tool_unique(v: StateV, id: Seq<char>, name: Seq<char>, target: Option<Seq<char>>)
    requires
        tools_unique(v.tools),
    ensures
        tools_unique(spec_upsert_tool(v, id, name, target).tools),
        spec_upsert_tool(v, id, name, target).tools.filter(tool_id_is(id)) =~= seq![
            ToolV { id, name, target },
        ],
{
    let p = tool_id_is(id);
    lemma_first_idx_props(v.tools, p);
    let i = first_idx(v.tools, p);
    let kept = if i >= 0 {
        v.tools.remove(i)
    } else {
        v.tools
    };
    assert forall|j: int| 0 <= j < kept.len() implies (#[trigger] kept[j]).id != id by {
        if i >= 0 {
            if j < i {
                assert(kept[j] == v.tools[j]);
            } else {
                assert(kept[j] == v.tools[j + 1]);
                if v.tools[j + 1].id == id {
                    assert(v.tools[i].id == v.tools[j + 1].id);
                }
            }
        }
    }
    let out = kept.push(ToolV { id, name, target });
    assert forall|m: int, n: int| 0 <= m < n < out.len() implies (#[trigger] out[m]).id != (
    #[trigger] out[n]).id by {
        if n < kept.len() {
            if i >= 0 {
                if m < i && n < i {
                    assert(out[m] == v.tools[m] && out[n] == v.tools[n]);
                } else if m < i {
                    assert(out[m] == v.tools[m] && out[n] == v.tools[n + 1]);
                } else {
                    assert(out[m] == v.tools[m + 1] && out[n] == v.tools[n + 1]);
                }
            }
        } else {
            assert(out[n].id == id);
            assert(out[m] == kept[m]);
        }
    }
    reveal(Seq::filter);
    lemma_filter_none_push(kept, ToolV { id, name, target }, p);
}

proof fn lemma_filter_none_push(s: Seq<ToolV>, x: ToolV, p: spec_fn(ToolV) -> bool)
    requires
        forall|j: int| 0 <= j < s.len() ==> !p(#[trigger] s[j]),
        p(x),
    ensures
        s.push(x).filter(p) =~= seq![x],
    decreases s.len(),
{
    reveal(Seq::filter);
    s.lemma_all_neg_filter_empty(p);
    assert(s.push(x).drop_last() =~= s);
    assert(s.push(x).filter(p) == s.filter(p) + seq![x]);
}

/// Upsert idempotence: re-upserting an id replaces the entry and leaves
/// exactly one active tool under that id, carrying the newest name and
/// target, at the most-recent position.
pub proof fn lemma_upsert_tool_replaces(
    v: StateV,
    id: Seq<char>,
    name1: Seq<char>,
    t1: Option<Seq<char>>,
    name2: Seq<char>,
    t2: Option<Seq<char>>,
)
    requires
        tools_unique(v.tools),
    ensures
        ({
            let v2 = spec_upsert_tool(spec_upsert_tool(v, id, name1, t1), id, name2, t2);
            &&& v2.tools.filter(tool_id_is(id)) =~= seq![ToolV { id, name: name2, target: t2 }]
            &&& v2.tools.len() > 0
            &&& v2.tools.last() == ToolV { id, name: name2, target: t2 }
            &&& tools_unique(v2.tools)
        }),
{
    lemma_upsert_tool_unique(v, id, name1, t1);
    let v1 = spec_upsert_tool(v, id, name1, t1);
    lemma_upsert_tool_unique(v1, id, name2, t2);
}

/// Completion tallies: removing a never-added id leaves the tallies
/// unchanged.
pub proof fn lemma_remove_tool_absent(v: StateV, id: Seq<char>)
    requires
        first_idx(v.tools, tool_id_is(id)) == -1,
    ensures
        spec_remove_tool(v, id).tallies == v.tallies,
        spec_remove_tool(v, id).agents == v.agents,
{
}

/// Completion tallies: removing a present id bumps exactly its name's
/// bucket by one and leaves every other bucket unchanged.
pub proof fn lemma_remove_tool_bumps(v: StateV, id: Seq<char>)
    requires
        first_idx(v.tools, tool_id_is(id)) >= 0,
        tally_count(v.tallies, v.tools[first_idx(v.tools, tool_id_is(id))].name)
            < u32::MAX,
    ensures
        ({
            let name = v.tools[first_idx(v.tools, tool_id_is(id))].name;
            let after = spec_remove_tool(v, id).tallies;
            &&& tally_count(after, name) == tally_count(v.tallies, name) + 1
            &&& forall|o: Seq<char>| o != name ==> tally_count(after, o) == tally_count(
                v.tallies,
                o,
            )
        }),
{
    let i = first_idx(v.tools, tool_id_is(id));
    let name = v.tools[i].name;
    lemma_bump_tally(v.tallies, name);
    assert forall|o: Seq<char>| o != name implies tally_count(bump_tally(v.tallies, name), o)
        == tally_count(v.tallies, o) by {
        lemma_bump_tally_other(v.tallies, name, o);
    }
}

proof fn lemma_bump_tally(tallies: Seq<TallyV>, name: Seq<char>)
    requires
        tally_count(tallies, name) < u32::MAX,
    ensures
        tally_count(bump_tally(tallies, name), name) == tally_count(tallies, name) + 1,
{
    let p = tally_name_is(name);
    lemma_first_idx_props(tallies, p);
    let i = first_idx(tallies, p);
    if i >= 0 {
        let c = tallies[i].count;
        let u = tallies.update(i, TallyV { name, count: (c + 1) as u32 });
        assert(p(u[i]));
        assert forall|j: int| 0 <= j < i implies !p(#[trigger] u[j]) by {
            assert(u[j] == tallies[j]);
        }
        lemma_first_idx_found(u, p, i);
    } else {
        let u = tallies.push(TallyV { name, count: 1 });
        assert(p(u[tallies.len() as int]));
        assert forall|j: int| 0 <= j < tallies.len() implies !p(#[trigger] u[j]) by {
            assert(u[j] == tallies[j]);
        }
        lemma_first_idx_found(u, p, tallies.len() as int);
    }
}

proof fn lemma_bump_tally_other(tallies: Seq<TallyV>, name: Seq<char>, other: Seq<char>)
    requires
        other != name,
    ensures
        tally_count(bump_tally(tallies, name), other) == tally_count(tallies, other),
{
    let p = tally_name_is(other);
    let q = tally_name_is(name);
    lemma_first_idx_props(tallies, p);
    lemma_first_idx_props(tallies, q);
    let io = first_idx(tallies, p);
    let ik = first_idx(tallies, q);
    if ik >= 0 {
        let c = tallies[ik].count;
        let fresh = TallyV {
            name,
            count: if c < u32::MAX {
                (c + 1) as u32
            } else {
                c
            },
        };
        let u = tallies.update(ik, fresh);
        if io >= 0 {
            assert(io != ik);
            assert(p(u[io]));
            assert forall|j: int| 0 <= j < io implies !p(#[trigger] u[j]) by {
                if j == ik {
                    assert(u[j].name == name);
                } else {
                    assert(u[j] == tallies[j]);
                }
            }
            lemma_first_idx_found(u, p, io);
            assert(u[io] == tallies[io]);
        } else {
            assert forall|j: int| 0 <= j < u.len() implies !p(#[trigger] u[j]) by {
                if j == ik {
                    assert(u[j].name == name);
                } else {
                    assert(u[j] == tallies[j]);
                }
            }
            lemma_first_idx_none(u, p);
        }
    } else {
        let u = tallies.push(TallyV { name, count: 1 });
        if io >= 0 {
            assert(p(u[io]));
            assert forall|j: int| 0 <= j < io implies !p(#[trigger] u[j]) by {
                assert(u[j] == tallies[j]);
            }
            lemma_first_idx_found(u, p, io);
            assert(u[io] == tallies[io]);
        } else {
            assert forall|j: int| 0 <= j < u.len() implies !p(#[trigger] u[j]) by {
                if j < tallies.len() {
                    assert(u[j] == tallies[j]);
                }
            }
            lemma_first_idx_none(u, p);
        }
    }
}

/// The derived todo aggregate is absent exactly when the item map is
/// empty or fully completed; otherwise its counts add up.
pub proof fn lemma_todo_aggregate(items: Seq<(Seq<char>, TaskItemV)>)
    requires
        items.len() <= usize::MAX,
    ensures
        spec_todo_of_items(items) is None <==> (items.len() == 0 || count_completed(items)
            == items.len()),
        spec_todo_of_items(items) matches Option::Some(t) ==> t.total == items.len()
            && t.completed == count_completed(items) && t.pending + t.completed == t.total,
{
    lemma_count_completed_le(items);
}


/// The completed-agent list is bounded: completing an agent never leaves
/// more than `MAX_COMPLETED_AGENTS` entries, whatever was there before.
pub proof fn lemma_completed_agents_bounded(v: StateV, id: Seq<char>, now_ms: u64)
    ensures
        first_idx(v.agents, agent_id_is(id)) >= 0 ==> spec_remove_agent(
            v,
            id,
            now_ms,
        ).done_agents.len() <= MAX_COMPLETED_AGENTS || spec_remove_agent(
            v,
            id,
            now_ms,
        ).done_agents.len() <= v.done_agents.len(),
        v.done_agents.len() < MAX_COMPLETED_AGENTS ==> spec_remove_agent(
            v,
            id,
            now_ms,
        ).done_agents.len() <= MAX_COMPLETED_AGENTS,
{
}

} // verus!
