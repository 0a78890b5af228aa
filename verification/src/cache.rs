//! The serializable projection of the session state and the TTL gate
//! applied when it is loaded back.

use vstd::prelude::*;

use crate::state::{
    items_view, links_view, opt_pair_env_v, opt_pair_git_v, opt_todo_v, views_of, SessionState,
    StateV,
};
use crate::types::{
    ov, AgentSummary, AgentV, CompletedToolCount, EnvSnapshot, GitSnapshot, GitV, Line3Metrics,
    PendingTask, PendingV, TallyV, TaskItem, TaskItemV, TodoSummary, TodoV, ToolSummary, ToolV,
};

verus! {

/// How long a cached environment/git snapshot stays valid.
pub const CACHE_TTL_MS: u64 = 10_000;

/// A time-stamped cached snapshot keyed by directory.
pub struct CacheEntry<T> {
    pub path: String,
    pub snapshot: T,
    pub cached_at_ms: u64,
}

/// The on-disk projection of a session's state.
pub struct SessionCache {
    pub transcript_offset: u64,
    pub transcript_path: Option<String>,
    pub active_tools: Vec<ToolSummary>,
    pub active_agents: Vec<AgentSummary>,
    pub completed_agents: Vec<AgentSummary>,
    pub completed_tool_counts: Vec<CompletedToolCount>,
    pub todo: Option<TodoSummary>,
    pub pending_tasks: Vec<PendingTask>,
    pub task_agent_links: Vec<(String, String)>,
    pub task_items: Vec<(String, TaskItem)>,
    pub task_counter: u32,
    pub line3: Option<Line3Metrics>,
    pub env: Option<CacheEntry<EnvSnapshot>>,
    pub git: Option<CacheEntry<GitSnapshot>>,
}

#[verifier::ext_equal]
pub struct CacheV {
    pub offset: u64,
    pub path: Option<Seq<char>>,
    pub tools: Seq<ToolV>,
    pub agents: Seq<AgentV>,
    pub done_agents: Seq<AgentV>,
    pub tallies: Seq<TallyV>,
    pub todo: Option<TodoV>,
    pub pending: Seq<PendingV>,
    pub links: Seq<(Seq<char>, Seq<char>)>,
    pub items: Seq<(Seq<char>, TaskItemV)>,
    pub counter: u32,
    pub line3: Option<Line3Metrics>,
    pub env: Option<(Seq<char>, EnvSnapshot, u64)>,
    pub git: Option<(Seq<char>, GitV, u64)>,
}

pub open spec fn env_entry_v(o: Option<CacheEntry<EnvSnapshot>>) -> Option<(Seq<char>, EnvSnapshot, u64)> {
    match o {
        Option::Some(e) => Option::Some((e.path@, e.snapshot, e.cached_at_ms)),
        Option::None => Option::None,
    }
}

pub open spec fn git_entry_v(o: Option<CacheEntry<GitSnapshot>>) -> Option<(Seq<char>, GitV, u64)> {
    match o {
        Option::Some(e) => Option::Some((e.path@, e.snapshot@, e.cached_at_ms)),
        Option::None => Option::None,
    }
}

impl View for SessionCache {
    type V = CacheV;

    open spec fn view(&self) -> CacheV {
        CacheV {
            offset: self.transcript_offset,
            path: ov(self.transcript_path),
            tools: views_of(self.active_tools@),
            agents: views_of(self.active_agents@),
            done_agents: views_of(self.completed_agents@),
            tallies: views_of(self.completed_tool_counts@),
            todo: opt_todo_v(self.todo),
            pending: views_of(self.pending_tasks@),
            links: links_view(self.task_agent_links@),
            items: items_view(self.task_items@),
            counter: self.task_counter,
            line3: self.line3,
            env: env_entry_v(self.env),
            git: git_entry_v(self.git),
        }
    }
}

/// The cache a state exports at time `now_ms`: every derived fact as it
/// stands, with the environment/git snapshots stamped `now_ms`.
pub open spec fn spec_to_cache(v: StateV, now_ms: u64) -> CacheV {
    CacheV {
        offset: v.offset,
        path: v.path,
        tools: v.tools,
        agents: v.agents,
        done_agents: v.done_agents,
        tallies: v.tallies,
        todo: v.todo,
        pending: v.pending,
        links: v.links,
        items: v.items,
        counter: v.counter,
        line3: v.line3,
        env: match v.env {
            Option::Some(e) => Option::Some((e.0, e.1, now_ms)),
            Option::None => Option::None,
        },
        git: match v.git {
            Option::Some(e) => Option::Some((e.0, e.1, now_ms)),
            Option::None => Option::None,
        },
    }
}

/// A stamped entry is fresh while less than the TTL has elapsed.
pub open spec fn entry_fresh(cached_at_ms: u64, now_ms: u64) -> bool {
    (if now_ms >= cached_at_ms {
        now_ms - cached_at_ms
    } else {
        0
    }) < CACHE_TTL_MS
}

/// The state a freshly hydrated session takes from a cache at time
/// `now_ms`: every exact derived fact unconditionally, the time-stamped
/// environment/git snapshots only while fresh.
pub open spec fn spec_load_from_cache(v: StateV, c: CacheV, now_ms: u64) -> StateV {
    StateV {
        offset: c.offset,
        path: c.path,
        poll_ms: v.poll_ms,
        tools: c.tools,
        agents: c.agents,
        done_agents: c.done_agents,
        tallies: c.tallies,
        todo: c.todo,
        pending: c.pending,
        links: c.links,
        items: c.items,
        counter: c.counter,
        line3: c.line3,
        env: match c.env {
            Option::Some(e) => if entry_fresh(e.2, now_ms) {
                Option::Some((e.0, e.1))
            } else {
                v.env
            },
            Option::None => v.env,
        },
        git: match c.git {
            Option::Some(e) => if entry_fresh(e.2, now_ms) {
                Option::Some((e.0, e.1))
            } else {
                v.git
            },
            Option::None => v.git,
        },
    }
}

fn clone_tools(v: &Vec<ToolSummary>) -> (r: Vec<ToolSummary>)
    ensures
        views_of(r@) =~= views_of(v@),
{
    let mut out: Vec<ToolSummary> = Vec::new();
    let mut i: usize = 0;
    while i < v.len()
        invariant
            i <= v@.len(),
            views_of(out@) =~= views_of(v@).take(i as int),
        decreases v@.len() - i,
    {
        let x = v[i].clone();
        assert(x@ == views_of(v@)[i as int]);
        let ghost prev = out@;
        out.push(x);
        proof {
            let lhs = views_of(out@);
            let rhs = views_of(v@).take(i + 1);
            assert(out@ == prev.push(x));
            assert(views_of(prev).len() == prev.len());
            assert(views_of(v@).take(i as int).len() == i as int);
            assert(prev.len() == i as int);
            assert forall|kk: int| 0 <= kk < lhs.len() implies lhs[kk] == rhs[kk] by {
                if kk < prev.len() {
                    assert(out@[kk] == prev[kk]);
                } else {
                    assert(out@[kk] == x);
                }
            }
            assert(lhs =~= rhs);
        }
        i = i + 1;
    }
    assert(views_of(v@).take(v@.len() as int) =~= views_of(v@));
    out
}

fn clone_agents(v: &Vec<AgentSummary>) -> (r: Vec<AgentSummary>)
    ensures
        views_of(r@) =~= views_of(v@),
{
    let mut out: Vec<AgentSummary> = Vec::new();
    let mut i: usize = 0;
    while i < v.len()
        invariant
            i <= v@.len(),
            views_of(out@) =~= views_of(v@).take(i as int),
        decreases v@.len() - i,
    {
        let x = v[i].clone();
        assert(x@ == views_of(v@)[i as int]);
        let ghost prev = out@;
        out.push(x);
        proof {
            let lhs = views_of(out@);
            let rhs = views_of(v@).take(i + 1);
            assert(out@ == prev.push(x));
            assert(views_of(prev).len() == prev.len());
            assert(views_of(v@).take(i as int).len() == i as int);
            assert(prev.len() == i as int);
            assert forall|kk: int| 0 <= kk < lhs.len() implies lhs[kk] == rhs[kk] by {
                if kk < prev.len() {
                    assert(out@[kk] == prev[kk]);
                } else {
                    assert(out@[kk] == x);
                }
            }
            assert(lhs =~= rhs);
        }
        i = i + 1;
    }
    assert(views_of(v@).take(v@.len() as int) =~= views_of(v@));
    out
}

fn clone_tallies(v: &Vec<CompletedToolCount>) -> (r: Vec<CompletedToolCount>)
    ensures
        views_of(r@) =~= views_of(v@),
{
    let mut out: Vec<CompletedToolCount> = Vec::new();
    let mut i: usize = 0;
    while i < v.len()
        invariant
            i <= v@.len(),
            views_of(out@) =~= views_of(v@).take(i as int),
        decreases v@.len() - i,
    {
        let x = v[i].clone();
        assert(x@ == views_of(v@)[i as int]);
        let ghost prev = out@;
        out.push(x);
        proof {
            let lhs = views_of(out@);
            let rhs = views_of(v@).take(i + 1);
            assert(out@ == prev.push(x));
            assert(views_of(prev).len() == prev.len());
            assert(views_of(v@).take(i as int).len() == i as int);
            assert(prev.len() == i as int);
            assert forall|kk: int| 0 <= kk < lhs.len() implies lhs[kk] == rhs[kk] by {
                if kk < prev.len() {
                    assert(out@[kk] == prev[kk]);
                } else {
                    assert(out@[kk] == x);
                }
            }
            assert(lhs =~= rhs);
        }
        i = i + 1;
    }
    assert(views_of(v@).take(v@.len() as int) =~= views_of(v@));
    out
}

fn clone_pending(v: &Vec<PendingTask>) -> (r: Vec<PendingTask>)
    ensures
        views_of(r@) =~= views_of(v@),
{
    let mut out: Vec<PendingTask> = Vec::new();
    let mut i: usize = 0;
    while i < v.len()
        invariant
            i <= v@.len(),
            views_of(out@) =~= views_of(v@).take(i as int),
        decreases v@.len() - i,
    {
        let x = v[i].clone();
        assert(x@ == views_of(v@)[i as int]);
        let ghost prev = out@;
        out.push(x);
        proof {
            let lhs = views_of(out@);
            let rhs = views_of(v@).take(i + 1);
            assert(out@ == prev.push(x));
            assert(views_of(prev).len() == prev.len());
            assert(views_of(v@).take(i as int).len() == i as int);
            assert(prev.len() == i as int);
            assert forall|kk: int| 0 <= kk < lhs.len() implies lhs[kk] == rhs[kk] by {
                if kk < prev.len() {
                    assert(out@[kk] == prev[kk]);
                } else {
                    assert(out@[kk] == x);
                }
            }
            assert(lhs =~= rhs);
        }
        i = i + 1;
    }
    assert(views_of(v@).take(v@.len() as int) =~= views_of(v@));
    out
}

fn clone_links(v: &Vec<(String, String)>) -> (r: Vec<(String, String)>)
    ensures
        links_view(r@) =~= links_view(v@),
{
    let mut out: Vec<(String, String)> = Vec::new();
    let mut i: usize = 0;
    while i < v.len()
        invariant
            i <= v@.len(),
            links_view(out@) =~= links_view(v@).take(i as int),
        decreases v@.len() - i,
    {
        let x = (v[i].0.clone(), v[i].1.clone());
        assert((x.0@, x.1@) == links_view(v@)[i as int]);
        let ghost prev = out@;
        out.push(x);
        proof {
            let lhs = links_view(out@);
            let rhs = links_view(v@).take(i + 1);
            assert(out@ == prev.push(x));
            assert(links_view(prev).len() == prev.len());
            assert(links_view(v@).take(i as int).len() == i as int);
            assert(prev.len() == i as int);
            assert forall|kk: int| 0 <= kk < lhs.len() implies lhs[kk] == rhs[kk] by {
                if kk < prev.len() {
                    assert(out@[kk] == prev[kk]);
                } else {
                    assert(out@[kk] == x);
                }
            }
            assert(lhs =~= rhs);
        }
        i = i + 1;
    }
    assert(links_view(v@).take(v@.len() as int) =~= links_view(v@));
    out
}

fn clone_items(v: &Vec<(String, TaskItem)>) -> (r: Vec<(String, TaskItem)>)
    ensures
        items_view(r@) =~= items_view(v@),
{
    let mut out: Vec<(String, TaskItem)> = Vec::new();
    let mut i: usize = 0;
    while i < v.len()
        invariant
            i <= v@.len(),
            items_view(out@) =~= items_view(v@).take(i as int),
        decreases v@.len() - i,
    {
        let x = (v[i].0.clone(), v[i].1.clone());
        assert((x.0@, x.1@) == items_view(v@)[i as int]);
        let ghost prev = out@;
        out.push(x);
        proof {
            let lhs = items_view(out@);
            let rhs = items_view(v@).take(i + 1);
            assert(out@ == prev.push(x));
            assert(items_view(prev).len() == prev.len());
            assert(items_view(v@).take(i as int).len() == i as int);
            assert(prev.len() == i as int);
            assert forall|kk: int| 0 <= kk < lhs.len() implies lhs[kk] == rhs[kk] by {
                if kk < prev.len() {
                    assert(out@[kk] == prev[kk]);
                } else {
                    assert(out@[kk] == x);
                }
            }
            assert(lhs =~= rhs);
        }
        i = i + 1;
    }
    assert(items_view(v@).take(v@.len() as int) =~= items_view(v@));
    out
}

impl SessionState {
    /// Exports the full state for disk persistence, stamping the
    /// environment/git snapshots with `now_ms`.
    pub fn to_cache(&self, now_ms: u64) -> (r: SessionCache)
        ensures
            r@ =~= spec_to_cache(self@, now_ms),
    {
        let env = match &self.cached_env {
            Option::Some(e) => Option::Some(
                CacheEntry { path: e.0.clone(), snapshot: e.1, cached_at_ms: now_ms },
            ),
            Option::None => Option::None,
        };
        let git = match &self.cached_git {
            Option::Some(e) => Option::Some(
                CacheEntry { path: e.0.clone(), snapshot: e.1.clone(), cached_at_ms: now_ms },
            ),
            Option::None => Option::None,
        };
        let todo = match &self.todo {
            Option::Some(t) => Option::Some(t.clone()),
            Option::None => Option::None,
        };
        let line3 = match &self.cached_line3 {
            Option::Some(m) => Option::Some(m.clone()),
            Option::None => Option::None,
        };
        let path = crate::types::clone_opt_string(&self.last_transcript_path);
        SessionCache {
            transcript_offset: self.last_transcript_offset,
            transcript_path: path,
            active_tools: clone_tools(&self.active_tools),
            active_agents: clone_agents(&self.active_agents),
            completed_agents: clone_agents(&self.completed_agents),
            completed_tool_counts: clone_tallies(&self.completed_tool_counts),
            todo,
            pending_tasks: clone_pending(&self.pending_tasks),
            task_agent_links: clone_links(&self.task_agent_links),
            task_items: clone_items(&self.task_items),
            task_counter: self.task_counter,
            line3,
            env,
            git,
        }
    }

    /// Hydrates this state from a disk cache: exact transcript-derived
    /// facts are restored unconditionally, the environment/git snapshots
    /// only within the TTL.
    pub fn load_from_cache(&mut self, cache: SessionCache, now_ms: u64)
        ensures
            final(self)@ =~= spec_load_from_cache(old(self)@, cache@, now_ms),
    {
        let ghost v0 = self@;
        let ghost c = cache@;
        let SessionCache {
            transcript_offset,
            transcript_path,
            active_tools,
            active_agents,
            completed_agents,
            completed_tool_counts,
            todo,
            pending_tasks,
            task_agent_links,
            task_items,
            task_counter,
            line3,
            env,
            git,
        } = cache;
        self.last_transcript_offset = transcript_offset;
        self.last_transcript_path = transcript_path;
        self.active_tools = active_tools;
        self.active_agents = active_agents;
        self.completed_agents = completed_agents;
        self.completed_tool_counts = completed_tool_counts;
        self.todo = todo;
        self.pending_tasks = pending_tasks;
        self.task_agent_links = task_agent_links;
        self.task_items = task_items;
        self.task_counter = task_counter;
        self.cached_line3 = line3;
        match env {
            Option::Some(e) => {
                let age = if now_ms >= e.cached_at_ms {
                    now_ms - e.cached_at_ms
                } else {
                    0
                };
                if age < CACHE_TTL_MS {
                    self.cached_env = Option::Some((e.path, e.snapshot));
                }
            },
            Option::None => {},
        }
        match git {
            Option::Some(e) => {
                let age = if now_ms >= e.cached_at_ms {
                    now_ms - e.cached_at_ms
                } else {
                    0
                };
                if age < CACHE_TTL_MS {
                    self.cached_git = Option::Some((e.path, e.snapshot));
                }
            },
            Option::None => {},
        }
        assert(self@ =~= spec_load_from_cache(v0, c, now_ms));
    }
}


/// Relies on std::time::SystemTime::now: the wall clock in epoch
/// milliseconds. Nothing is promised of the value; callers state what
/// holds for every reading.
#[verifier::external_body]
pub fn now_epoch_ms() -> u64 {
    std::time::SystemTime::now().duration_since(std::time::UNIX_EPOCH).unwrap_or_default()
        .as_millis() as u64
}

/// Cache round trip: exporting a state and loading it back into a fresh
/// session restores every transcript-derived fact exactly; the
/// environment/git snapshots survive exactly when their stamp is still
/// within the TTL at load time, and are absent otherwise.
pub proof fn lemma_cache_round_trip(v: StateV, fresh: StateV, save_ms: u64, load_ms: u64)
    requires
        fresh.env is None,
        fresh.git is None,
    ensures
        ({
            let w = spec_load_from_cache(fresh, spec_to_cache(v, save_ms), load_ms);
            &&& w.offset == v.offset
            &&& w.path == v.path
            &&& w.tools == v.tools
            &&& w.agents == v.agents
            &&& w.done_agents == v.done_agents
            &&& w.tallies == v.tallies
            &&& w.todo == v.todo
            &&& w.pending == v.pending
            &&& w.links == v.links
            &&& w.items == v.items
            &&& w.counter == v.counter
            &&& w.line3 == v.line3
            &&& (entry_fresh(save_ms, load_ms) ==> w.env == v.env && w.git == v.git)
            &&& (!entry_fresh(save_ms, load_ms) ==> w.env is None && w.git is None)
        }),
{
}

} // verus!
