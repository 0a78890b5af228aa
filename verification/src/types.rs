//! Data model: the stdin payload, per-line metric groups, and the
//! normalized activity facts derived from the transcript.

use vstd::prelude::*;

verus! {

/// Clones an optional string exactly.
pub fn clone_opt_string(o: &Option<String>) -> (r: Option<String>)
    ensures
        r == *o,
{
    match o {
        Option::Some(s) => Option::Some(s.clone()),
        Option::None => Option::None,
    }
}

/// Clones an optional integer exactly.
pub fn clone_opt_u64(o: &Option<u64>) -> (r: Option<u64>)
    ensures
        r == *o,
{
    match o {
        Option::Some(n) => Option::Some(*n),
        Option::None => Option::None,
    }
}

/// The view of an optional string.
pub open spec fn ov(o: Option<String>) -> Option<Seq<char>> {
    match o {
        Option::Some(s) => Option::Some(s@),
        Option::None => Option::None,
    }
}

// ---- Stdin payload ----

pub struct ModelInfo {
    pub id: Option<String>,
    pub display_name: Option<String>,
}

pub struct OutputStyleInfo {
    pub name: Option<String>,
}

pub struct WorkspaceInfo {
    pub current_dir: Option<String>,
}

pub struct ContextWindow {
    pub context_window_size: Option<u64>,
    pub used_percentage: Option<u64>,
    pub current_usage: Option<CurrentUsage>,
}

pub struct CurrentUsage {
    pub input_tokens: Option<u64>,
    pub output_tokens: Option<u64>,
    pub cache_creation_input_tokens: Option<u64>,
    pub cache_read_input_tokens: Option<u64>,
}

/// Session cost figures. The dollar total is carried in millionths of a
/// dollar so that the tracker holds it as an exact integer.
pub struct CostInfo {
    pub total_cost_micro_usd: Option<u64>,
    pub total_duration_ms: Option<u64>,
}

pub struct StdinPayload {
    pub session_id: Option<String>,
    pub model: Option<ModelInfo>,
    pub output_style: Option<OutputStyleInfo>,
    pub version: Option<String>,
    pub cwd: Option<String>,
    pub workspace: Option<WorkspaceInfo>,
    pub context_window: Option<ContextWindow>,
    pub cost: Option<CostInfo>,
    pub transcript_path: Option<String>,
}

pub open spec fn spec_resolve_project_path(p: StdinPayload) -> Option<String> {
    match p.workspace {
        Option::Some(w) => match w.current_dir {
            Option::Some(d) => Option::Some(d),
            Option::None => p.cwd,
        },
        Option::None => p.cwd,
    }
}

impl StdinPayload {
    /// The project path: the workspace's current directory when given,
    /// else the process working directory.
    pub fn resolve_project_path(&self) -> (r: Option<String>)
        ensures
            r == spec_resolve_project_path(*self),
    {
        match &self.workspace {
            Option::Some(w) => match &w.current_dir {
                Option::Some(d) => Option::Some(d.clone()),
                Option::None => clone_opt_string(&self.cwd),
            },
            Option::None => clone_opt_string(&self.cwd),
        }
    }
}

// ---- Activity facts ----

/// A currently running tool call; identity is `id`.
pub struct ToolSummary {
    pub id: String,
    pub name: String,
    pub target: Option<String>,
}

impl Clone for ToolSummary {
    fn clone(&self) -> (r: Self)
        ensures
            r == *self,
    {
        ToolSummary { id: self.id.clone(), name: self.name.clone(), target: clone_opt_string(&self.target) }
    }
}

/// One completed-tool tally row.
pub struct CompletedToolCount {
    pub name: String,
    pub count: u32,
}

impl Clone for CompletedToolCount {
    fn clone(&self) -> (r: Self)
        ensures
            r == *self,
    {
        CompletedToolCount { name: self.name.clone(), count: self.count }
    }
}

/// A "Task" tool call waiting to be linked to a progress-stream agent id.
pub struct PendingTask {
    pub tool_use_id: String,
    pub description: String,
    pub agent_type: Option<String>,
    pub model: Option<String>,
    pub event_ts: Option<u64>,
}

impl Clone for PendingTask {
    fn clone(&self) -> (r: Self)
        ensures
            r == *self,
    {
        PendingTask {
            tool_use_id: self.tool_use_id.clone(),
            description: self.description.clone(),
            agent_type: clone_opt_string(&self.agent_type),
            model: clone_opt_string(&self.model),
            event_ts: clone_opt_u64(&self.event_ts),
        }
    }
}

/// One row of the stateful todo list.
pub struct TaskItem {
    pub subject: String,
    pub active_form: Option<String>,
    pub status: String,
}

impl Clone for TaskItem {
    fn clone(&self) -> (r: Self)
        ensures
            r == *self,
    {
        TaskItem {
            subject: self.subject.clone(),
            active_form: clone_opt_string(&self.active_form),
            status: self.status.clone(),
        }
    }
}

/// A delegated sub-agent. While `completed_at` is absent it is active.
pub struct AgentSummary {
    pub id: String,
    pub description: String,
    pub agent_type: Option<String>,
    pub started_at: Option<u64>,
    pub model: Option<String>,
    pub completed_at: Option<u64>,
}

impl Clone for AgentSummary {
    fn clone(&self) -> (r: Self)
        ensures
            r == *self,
    {
        AgentSummary {
            id: self.id.clone(),
            description: self.description.clone(),
            agent_type: clone_opt_string(&self.agent_type),
            started_at: clone_opt_u64(&self.started_at),
            model: clone_opt_string(&self.model),
            completed_at: clone_opt_u64(&self.completed_at),
        }
    }
}

impl AgentSummary {
    pub fn is_completed(&self) -> (r: bool)
        ensures
            r == self.completed_at is Some,
    {
        self.completed_at.is_some()
    }
}

/// Aggregate derived from the todo state; absent when nothing is pending.
pub struct TodoSummary {
    pub text: String,
    pub pending: usize,
    pub completed: usize,
    pub total: usize,
}

impl Clone for TodoSummary {
    fn clone(&self) -> (r: Self)
        ensures
            r == *self,
    {
        TodoSummary {
            text: self.text.clone(),
            pending: self.pending,
            completed: self.completed,
            total: self.total,
        }
    }
}

// ---- Environment and git snapshots ----

/// Counts of project metadata files.
#[derive(Clone, Copy, PartialEq, Eq, Structural)]
pub struct EnvSnapshot {
    pub claude_md_count: u32,
    pub rules_count: u32,
    pub hooks_count: u32,
    pub mcp_count: u32,
    pub memory_count: u32,
    pub skills_count: u32,
}

impl Default for EnvSnapshot {
    fn default() -> (r: Self)
        ensures
            r.claude_md_count == 0,
            r.rules_count == 0,
            r.hooks_count == 0,
            r.mcp_count == 0,
            r.memory_count == 0,
            r.skills_count == 0,
    {
        EnvSnapshot {
            claude_md_count: 0,
            rules_count: 0,
            hooks_count: 0,
            mcp_count: 0,
            memory_count: 0,
            skills_count: 0,
        }
    }
}

/// Summary of the working tree's git status.
pub struct GitSnapshot {
    pub branch: String,
    pub dirty: bool,
    pub ahead: u32,
    pub behind: u32,
    pub modified_count: u32,
    pub added_count: u32,
    pub deleted_count: u32,
    pub untracked_count: u32,
}

impl Clone for GitSnapshot {
    fn clone(&self) -> (r: Self)
        ensures
            r == *self,
    {
        GitSnapshot {
            branch: self.branch.clone(),
            dirty: self.dirty,
            ahead: self.ahead,
            behind: self.behind,
            modified_count: self.modified_count,
            added_count: self.added_count,
            deleted_count: self.deleted_count,
            untracked_count: self.untracked_count,
        }
    }
}

pub open spec fn git_snapshot_default(g: GitSnapshot) -> bool {
    &&& g.branch@ == "unknown"@
    &&& !g.dirty
    &&& g.ahead == 0
    &&& g.behind == 0
    &&& g.modified_count == 0
    &&& g.added_count == 0
    &&& g.deleted_count == 0
    &&& g.untracked_count == 0
}

impl Default for GitSnapshot {
    fn default() -> (r: Self)
        ensures
            git_snapshot_default(r),
    {
        GitSnapshot {
            branch: String::from_str("unknown"),
            dirty: false,
            ahead: 0,
            behind: 0,
            modified_count: 0,
            added_count: 0,
            deleted_count: 0,
            untracked_count: 0,
        }
    }
}

// ---- Budget metrics ----

/// The cached budget-metrics group; the cost total is in millionths of a
/// dollar (see `CostInfo`).
pub struct Line3Metrics {
    pub context_window_size: Option<u64>,
    pub context_used_percentage: Option<u64>,
    pub input_tokens: Option<u64>,
    pub output_tokens: Option<u64>,
    pub cache_creation_tokens: Option<u64>,
    pub cache_read_tokens: Option<u64>,
    pub total_cost_micro_usd: Option<u64>,
    pub total_duration_ms: Option<u64>,
}

impl Clone for Line3Metrics {
    fn clone(&self) -> (r: Self)
        ensures
            r == *self,
    {
        Line3Metrics {
            context_window_size: clone_opt_u64(&self.context_window_size),
            context_used_percentage: clone_opt_u64(&self.context_used_percentage),
            input_tokens: clone_opt_u64(&self.input_tokens),
            output_tokens: clone_opt_u64(&self.output_tokens),
            cache_creation_tokens: clone_opt_u64(&self.cache_creation_tokens),
            cache_read_tokens: clone_opt_u64(&self.cache_read_tokens),
            total_cost_micro_usd: clone_opt_u64(&self.total_cost_micro_usd),
            total_duration_ms: clone_opt_u64(&self.total_duration_ms),
        }
    }
}

pub open spec fn spec_line3_has_data(m: Line3Metrics) -> bool {
    m.context_window_size is Some || m.context_used_percentage is Some || m.input_tokens is Some
        || m.output_tokens is Some || m.cache_creation_tokens is Some
        || m.cache_read_tokens is Some || m.total_cost_micro_usd is Some
        || m.total_duration_ms is Some
}

impl Line3Metrics {
    /// True when any field carries a value.
    pub fn has_data(&self) -> (r: bool)
        ensures
            r == spec_line3_has_data(*self),
    {
        self.context_window_size.is_some() || self.context_used_percentage.is_some()
            || self.input_tokens.is_some() || self.output_tokens.is_some()
            || self.cache_creation_tokens.is_some() || self.cache_read_tokens.is_some()
            || self.total_cost_micro_usd.is_some() || self.total_duration_ms.is_some()
    }

    pub fn empty() -> (r: Self)
        ensures
            !spec_line3_has_data(r),
    {
        Line3Metrics {
            context_window_size: Option::None,
            context_used_percentage: Option::None,
            input_tokens: Option::None,
            output_tokens: Option::None,
            cache_creation_tokens: Option::None,
            cache_read_tokens: Option::None,
            total_cost_micro_usd: Option::None,
            total_duration_ms: Option::None,
        }
    }
}

// ---- Mathematical views of the activity facts ----

#[verifier::ext_equal]
pub struct ToolV {
    pub id: Seq<char>,
    pub name: Seq<char>,
    pub target: Option<Seq<char>>,
}

impl View for ToolSummary {
    type V = ToolV;

    open spec fn view(&self) -> ToolV {
        ToolV { id: self.id@, name: self.name@, target: ov(self.target) }
    }
}

#[verifier::ext_equal]
pub struct TallyV {
    pub name: Seq<char>,
    pub count: u32,
}

impl View for CompletedToolCount {
    type V = TallyV;

    open spec fn view(&self) -> TallyV {
        TallyV { name: self.name@, count: self.count }
    }
}

#[verifier::ext_equal]
pub struct PendingV {
    pub tool_use_id: Seq<char>,
    pub description: Seq<char>,
    pub agent_type: Option<Seq<char>>,
    pub model: Option<Seq<char>>,
    pub event_ts: Option<u64>,
}

impl View for PendingTask {
    type V = PendingV;

    open spec fn view(&self) -> PendingV {
        PendingV {
            tool_use_id: self.tool_use_id@,
            description: self.description@,
            agent_type: ov(self.agent_type),
            model: ov(self.model),
            event_ts: self.event_ts,
        }
    }
}

#[verifier::ext_equal]
pub struct TaskItemV {
    pub subject: Seq<char>,
    pub active_form: Option<Seq<char>>,
    pub status: Seq<char>,
}

impl View for TaskItem {
    type V = TaskItemV;

    open spec fn view(&self) -> TaskItemV {
        TaskItemV { subject: self.subject@, active_form: ov(self.active_form), status: self.status@ }
    }
}

#[verifier::ext_equal]
pub struct AgentV {
    pub id: Seq<char>,
    pub description: Seq<char>,
    pub agent_type: Option<Seq<char>>,
    pub started_at: Option<u64>,
    pub model: Option<Seq<char>>,
    pub completed_at: Option<u64>,
}

impl View for AgentSummary {
    type V = AgentV;

    open spec fn view(&self) -> AgentV {
        AgentV {
            id: self.id@,
            description: self.description@,
            agent_type: ov(self.agent_type),
            started_at: self.started_at,
            model: ov(self.model),
            completed_at: self.completed_at,
        }
    }
}

#[verifier::ext_equal]
pub struct TodoV {
    pub text: Seq<char>,
    pub pending: usize,
    pub completed: usize,
    pub total: usize,
}

impl View for TodoSummary {
    type V = TodoV;

    open spec fn view(&self) -> TodoV {
        TodoV { text: self.text@, pending: self.pending, completed: self.completed, total: self.total }
    }
}

#[verifier::ext_equal]
pub struct GitV {
    pub branch: Seq<char>,
    pub dirty: bool,
    pub ahead: u32,
    pub behind: u32,
    pub modified_count: u32,
    pub added_count: u32,
    pub deleted_count: u32,
    pub untracked_count: u32,
}

impl View for GitSnapshot {
    type V = GitV;

    open spec fn view(&self) -> GitV {
        GitV {
            branch: self.branch@,
            dirty: self.dirty,
            ahead: self.ahead,
            behind: self.behind,
            modified_count: self.modified_count,
            added_count: self.added_count,
            deleted_count: self.deleted_count,
            untracked_count: self.untracked_count,
        }
    }
}

// ---- Identity and metadata line groups ----

pub struct Line1Metrics {
    pub model: String,
    pub output_style: String,
    pub claude_code_version: String,
    pub project_path: String,
    pub git_branch: String,
    pub git_dirty: bool,
    pub git_ahead: u32,
    pub git_behind: u32,
    pub git_modified: u32,
    pub git_added: u32,
    pub git_deleted: u32,
    pub git_untracked: u32,
}

pub struct Line2Metrics {
    pub claude_md_count: u32,
    pub rules_count: u32,
    pub hooks_count: u32,
    pub mcp_count: u32,
    pub memory_count: u32,
    pub skills_count: u32,
    pub elapsed_minutes: u64,
}

} // verus!
