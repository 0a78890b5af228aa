//! The transcript reader's decision logic: throttling, truncation reset,
//! line splitting, per-invocation event windowing and the snapshot
//! projection. The file system calls themselves live with the caller; the
//! reader works on the bytes and lengths they hand over.

use vstd::prelude::*;

use crate::classify::{spec_apply_events, apply_events};
use crate::config::RenderConfig;
use crate::json::{json_of, parse_json_line, Json};
use crate::state::{
    first_idx, sort_tallies, spec_agents_for_display, spec_capped, take_at_most, views_of,
    SessionState, StateV,
};
use crate::textutil::chars_to_string;
use crate::timestamp::{spec_trim, trim_chars};
use crate::types::{AgentSummary, CompletedToolCount, TodoSummary, ToolSummary};

verus! {

// ---- Poll throttling ----

/// Whether a poll should be skipped: a throttle is set, a previous poll
/// exists, and less than the throttle interval has elapsed since it.
pub open spec fn spec_should_throttle(last_poll_ms: Option<u64>, now_ms: u64, throttle_ms: u64) -> bool {
    throttle_ms != 0 && (match last_poll_ms {
        Option::Some(t) => (if now_ms >= t {
            now_ms - t
        } else {
            0
        }) < throttle_ms,
        Option::None => false,
    })
}

pub fn should_throttle(last_poll_ms: Option<u64>, now_ms: u64, throttle_ms: u64) -> (r: bool)
    ensures
        r == spec_should_throttle(last_poll_ms, now_ms, throttle_ms),
{
    if throttle_ms == 0 {
        return false;
    }
    match last_poll_ms {
        Option::Some(t) => {
            let elapsed = if now_ms >= t {
                now_ms - t
            } else {
                0
            };
            elapsed < throttle_ms
        },
        Option::None => false,
    }
}

// ---- Truncation reset ----

/// A file shorter than the recorded offset means rotation or truncation:
/// offset returns to zero and every derived fact is cleared, while the
/// path and the environment/git snapshots stay.
pub open spec fn spec_check_truncation(v: StateV, file_len: u64) -> StateV {
    if file_len < v.offset {
        StateV {
            offset: 0,
            tools: Seq::empty(),
            agents: Seq::empty(),
            done_agents: Seq::empty(),
            tallies: Seq::empty(),
            todo: Option::None,
            pending: Seq::empty(),
            links: Seq::empty(),
            items: Seq::empty(),
            counter: 0,
            line3: Option::None,
            ..v
        }
    } else {
        v
    }
}

impl SessionState {
    /// Applies the truncation/rotation check against the current file length.
    pub fn apply_truncation_check(&mut self, file_len: u64)
        ensures
            final(self)@ =~= spec_check_truncation(old(self)@, file_len),
    {
        let ghost v0 = self@;
        if file_len < self.last_transcript_offset {
            self.last_transcript_offset = 0;
            self.active_tools = Vec::new();
            self.active_agents = Vec::new();
            self.completed_agents = Vec::new();
            self.completed_tool_counts = Vec::new();
            self.todo = Option::None;
            self.pending_tasks = Vec::new();
            self.task_agent_links = Vec::new();
            self.task_items = Vec::new();
            self.task_counter = 0;
            self.cached_line3 = Option::None;
            assert(self@ =~= spec_check_truncation(v0, file_len));
        }
    }
}

// ---- Line splitting ----

pub open spec fn is_nl(c: char) -> bool {
    c == '\n'
}

/// The text split at every newline, segments kept in order.
pub open spec fn split_lines(s: Seq<char>) -> Seq<Seq<char>>
    decreases s.len(),
{
    let i = first_idx(s, |c: char| is_nl(c));
    if i < 0 || i >= s.len() {
        seq![s]
    } else {
        seq![s.take(i)] + split_lines(s.skip(i + 1))
    }
}

/// The complete, trimmed, non-empty lines of the text.
pub open spec fn clean_lines(s: Seq<char>) -> Seq<Seq<char>> {
    split_lines(s).map_values(|l: Seq<char>| spec_trim(l)).filter(|l: Seq<char>| l.len() > 0)
}

proof fn lemma_clean_lines_step(t: Seq<char>, pos: int, k: int)
    requires
        0 <= pos <= k <= t.len(),
        forall|j: int| pos <= j < k ==> !is_nl(#[trigger] t[j]),
        k < t.len() ==> is_nl(t[k]),
    ensures
        k < t.len() ==> clean_lines(t.skip(pos)) =~= clean_one(t.subrange(pos, k)) + clean_lines(
            t.skip(k + 1),
        ),
        k == t.len() ==> clean_lines(t.skip(pos)) =~= clean_one(t.subrange(pos, k)),
{
    let rest = t.skip(pos);
    let p = |c: char| is_nl(c);
    if k < t.len() {
        assert forall|j: int| 0 <= j < k - pos implies !p(#[trigger] rest[j]) by {
            assert(rest[j] == t[pos + j]);
        }
        assert(rest[k - pos] == t[k]);
        crate::state::lemma_first_idx_found(rest, p, k - pos);
        assert(split_lines(rest) == seq![rest.take(k - pos)] + split_lines(rest.skip(k - pos + 1)));
        assert(rest.take(k - pos) =~= t.subrange(pos, k));
        assert(rest.skip(k - pos + 1) =~= t.skip(k + 1));
        lemma_clean_concat(seq![t.subrange(pos, k)], split_lines(t.skip(k + 1)));
        lemma_clean_singleton(t.subrange(pos, k));
    } else {
        assert forall|j: int| 0 <= j < rest.len() implies !p(#[trigger] rest[j]) by {
            assert(rest[j] == t[pos + j]);
        }
        crate::state::lemma_first_idx_none(rest, p);
        assert(split_lines(rest) == seq![rest]);
        assert(rest =~= t.subrange(pos, k));
        lemma_clean_singleton(rest);
    }
}

/// What one raw segment contributes: its trimmed form when non-empty.
pub open spec fn clean_one(seg: Seq<char>) -> Seq<Seq<char>> {
    if spec_trim(seg).len() > 0 {
        seq![spec_trim(seg)]
    } else {
        Seq::empty()
    }
}

proof fn lemma_clean_singleton(seg: Seq<char>)
    ensures
        seq![seg].map_values(|l: Seq<char>| spec_trim(l)).filter(|l: Seq<char>| l.len() > 0)
            =~= clean_one(seg),
{
    let m = seq![seg].map_values(|l: Seq<char>| spec_trim(l));
    assert(m =~= seq![spec_trim(seg)]);
    reveal(Seq::filter);
    assert(m.drop_last() =~= Seq::<Seq<char>>::empty());
    assert(Seq::<Seq<char>>::empty().filter(|l: Seq<char>| l.len() > 0) =~= Seq::<Seq<char>>::empty());
}

proof fn lemma_clean_concat(a: Seq<Seq<char>>, b: Seq<Seq<char>>)
    ensures
        (a + b).map_values(|l: Seq<char>| spec_trim(l)).filter(|l: Seq<char>| l.len() > 0) =~= a.map_values(
            |l: Seq<char>| spec_trim(l),
        ).filter(|l: Seq<char>| l.len() > 0) + b.map_values(|l: Seq<char>| spec_trim(l)).filter(
            |l: Seq<char>| l.len() > 0,
        ),
{
    let f = |l: Seq<char>| spec_trim(l);
    let p = |l: Seq<char>| l.len() > 0;
    assert((a + b).map_values(f) =~= a.map_values(f) + b.map_values(f));
    Seq::filter_distributes_over_add(a.map_values(f), b.map_values(f), p);
}

/// Splits the newly read text into complete, trimmed, non-empty lines.
pub fn split_clean_lines(text: &str) -> (r: Vec<String>)
    ensures
        r@.map_values(|l: String| l@) =~= clean_lines(text@),
{
    let v = crate::textutil::str_chars(text);
    let ghost t = text@;
    let n = v.len();
    let mut out: Vec<String> = Vec::new();
    let mut pos: usize = 0;
    assert(t.skip(0) =~= t);
    loop
        invariant_except_break
            v@ == t,
            n == t.len(),
            pos <= n,
            clean_lines(t) =~= out@.map_values(|l: String| l@) + clean_lines(t.skip(pos as int)),
        ensures
            clean_lines(t) =~= out@.map_values(|l: String| l@),
        decreases n - pos,
    {
        let mut k: usize = pos;
        while k < n && v[k] != '\n'
            invariant
                pos <= k <= n,
                v@ == t,
                n == t.len(),
                forall|j: int| pos <= j < k ==> !is_nl(#[trigger] t[j]),
            decreases n - k,
        {
            k = k + 1;
        }
        let mut seg: Vec<char> = Vec::new();
        let mut i: usize = pos;
        while i < k
            invariant
                pos <= i <= k <= n,
                v@ == t,
                n == t.len(),
                seg@ =~= t.subrange(pos as int, i as int),
            decreases k - i,
        {
            seg.push(v[i]);
            assert(seg@ =~= t.subrange(pos as int, i + 1));
            i = i + 1;
        }
        let trimmed = trim_chars(&seg);
        let ghost before = out@.map_values(|l: String| l@);
        if trimmed.len() > 0 {
            let line = chars_to_string(&trimmed);
            out.push(line);
            assert(out@.map_values(|l: String| l@) =~= before + seq![spec_trim(
                t.subrange(pos as int, k as int),
            )]);
        }
        proof {
            lemma_clean_lines_step(t, pos as int, k as int);
            assert(out@.map_values(|l: String| l@) =~= before + clean_one(
                t.subrange(pos as int, k as int),
            ));
        }
        if k == n {
            break;
        }
        pos = k + 1;
    }
    out
}

// ---- Event windowing ----

/// At most the newest `window` events when a window is set; everything
/// otherwise.
pub open spec fn spec_window(evs: Seq<Json>, window: usize) -> Seq<Json> {
    if window > 0 && evs.len() > window {
        evs.skip(evs.len() - window)
    } else {
        evs
    }
}

fn apply_window(events: &mut Vec<Json>, window: usize)
    ensures
        final(events)@ =~= spec_window(old(events)@, window),
{
    let ghost orig = events@;
    if window == 0 {
        return;
    }
    while events.len() > window
        invariant
            window > 0,
            events@.len() <= orig.len(),
            events@.len() == orig.len() || events@.len() >= window,
            events@ =~= orig.skip(orig.len() - events@.len()),
        decreases events@.len(),
    {
        let ghost pre = events@;
        events.remove(0);
        proof {
            assert(events@ =~= pre.drop_first());
            assert(orig.skip(orig.len() - pre.len()).drop_first() =~= orig.skip(
                orig.len() - pre.len() + 1,
            ));
        }
    }
    proof {
        assert(orig.skip(0) =~= orig);
    }
}

// ---- Parsing the new lines ----

/// The events the new lines yield: each line parsed as one JSON value,
/// malformed lines dropped.
pub open spec fn parse_events(lines: Seq<Seq<char>>) -> Seq<Json> {
    lines.filter_map(|l: Seq<char>| json_of(l))
}

fn parse_lines(lines: &Vec<String>) -> (r: Vec<Json>)
    ensures
        r@ =~= parse_events(lines@.map_values(|l: String| l@)),
{
    let ghost lv = lines@.map_values(|l: String| l@);
    let mut out: Vec<Json> = Vec::new();
    let mut i: usize = 0;
    while i < lines.len()
        invariant
            i <= lines@.len(),
            lv == lines@.map_values(|l: String| l@),
            out@ =~= lv.take(i as int).filter_map(|l: Seq<char>| json_of(l)),
        decreases lines@.len() - i,
    {
        proof {
            assert(lv.take(i + 1).drop_last() =~= lv.take(i as int));
            assert(lv.take(i + 1).last() == lv[i as int]);
            assert(lv[i as int] == lines@[i as int]@);
        }
        match parse_json_line(lines[i].as_str()) {
            Option::Some(j) => {
                out.push(j);
            },
            Option::None => {},
        }
        i = i + 1;
    }
    assert(lv.take(lv.len() as int) =~= lv);
    out
}

// ---- Absorbing newly read bytes ----

/// The state after one read that found `text` beyond the old offset, with
/// the file now `file_len` bytes long: the windowed batch of parsed events
/// is applied in order, then the offset and poll stamp advance.
pub open spec fn spec_absorb(v: StateV, text: Seq<char>, file_len: u64, window: usize, now_ms: u64) -> StateV {
    let evs = spec_window(parse_events(clean_lines(text)), window);
    let v1 = spec_apply_events(v, evs, now_ms);
    StateV { offset: file_len, poll_ms: Option::Some(now_ms), ..v1 }
}

/// Applies the newly read transcript text to the state and records the new
/// offset and poll time.
pub fn absorb_new_text(
    state: &mut SessionState,
    text: &str,
    file_len: u64,
    window: usize,
    now_ms: u64,
)
    ensures
        final(state)@ =~= spec_absorb(old(state)@, text@, file_len, window, now_ms),
{
    let ghost v0 = state@;
    let lines = split_clean_lines(text);
    let mut events = parse_lines(&lines);
    assert(events@ =~= parse_events(clean_lines(text@)));
    apply_window(&mut events, window);
    assert(events@ =~= spec_window(parse_events(clean_lines(text@)), window));
    apply_events(state, &events, now_ms);
    state.last_transcript_offset = file_len;
    state.last_transcript_poll_ms = Option::Some(now_ms);
    assert(state@ =~= spec_absorb(v0, text@, file_len, window, now_ms));
}

// ---- Snapshot projection ----

/// The capped, ordered projections handed to the renderer.
pub struct TranscriptSnapshot {
    pub tools: Vec<ToolSummary>,
    pub completed_counts: Vec<CompletedToolCount>,
    pub agents: Vec<AgentSummary>,
    pub todo: Option<TodoSummary>,
}

/// Projects the state into the renderer's snapshot: most recent tools,
/// ranked completion tallies, agents for display, and the todo aggregate.
pub fn snapshot_from_state(state: &SessionState, config: &RenderConfig) -> (r: TranscriptSnapshot)
    ensures
        views_of(r.tools@) =~= spec_capped(state@.tools, config.max_tool_lines),
        views_of(r.completed_counts@) =~= take_at_most(
            sort_tallies(state@.tallies),
            config.max_completed_tools as int,
        ),
        views_of(r.agents@) =~= spec_agents_for_display(state@, config.max_agent_lines),
        crate::state::opt_todo_v(r.todo) == state@.todo,
{
    let todo = match &state.todo {
        Option::Some(t) => Option::Some(t.clone()),
        Option::None => Option::None,
    };
    TranscriptSnapshot {
        tools: state.capped_tools(config.max_tool_lines),
        completed_counts: state.top_completed_tools(config.max_completed_tools),
        agents: state.agents_for_display(config.max_agent_lines),
        todo,
    }
}


// ---- Laws of the reader ----

proof fn lemma_clean_lines_empty()
    ensures
        clean_lines(Seq::<char>::empty()) =~= Seq::<Seq<char>>::empty(),
{
    let e = Seq::<char>::empty();
    lemma_clean_lines_step(e, 0, 0);
    assert(e.skip(0) =~= e);
    assert(e.subrange(0, 0) =~= e);
    assert(crate::timestamp::spec_trim(e).len() == 0);
    assert(clean_one(e) =~= Seq::<Seq<char>>::empty());
}

/// Replay idempotence: a poll that finds no bytes beyond the consumed
/// offset (the file did not grow, so the newly read text is empty) leaves
/// every derived fact unchanged; only the poll stamp and the recorded
/// offset are refreshed.
pub proof fn lemma_replay_empty_is_noop(v: StateV, file_len: u64, window: usize, now_ms: u64)
    ensures
        ({
            let r = spec_absorb(v, Seq::<char>::empty(), file_len, window, now_ms);
            &&& r.tools == v.tools
            &&& r.agents == v.agents
            &&& r.done_agents == v.done_agents
            &&& r.tallies == v.tallies
            &&& r.todo == v.todo
            &&& r.pending == v.pending
            &&& r.links == v.links
            &&& r.items == v.items
            &&& r.counter == v.counter
            &&& r.line3 == v.line3
            &&& r.env == v.env
            &&& r.git == v.git
            &&& r.offset == file_len
            &&& r.poll_ms == Option::Some(now_ms)
        }),
{
    lemma_clean_lines_empty();
    let evs = parse_events(clean_lines(Seq::<char>::empty()));
    assert(clean_lines(Seq::<char>::empty()) == Seq::<Seq<char>>::empty());
    assert(evs.len() == 0);
    assert(spec_window(evs, window) == evs);
    assert(spec_apply_events(v, evs, now_ms) == v);
}

/// Monotonic offset: after absorbing a read the recorded offset equals
/// the file length at that point; a file shorter than the recorded offset
/// resets the offset to zero with every activity collection empty.
pub proof fn lemma_offset_tracks_file(v: StateV, text: Seq<char>, file_len: u64, window: usize, now_ms: u64)
    ensures
        spec_absorb(v, text, file_len, window, now_ms).offset == file_len,
        file_len < v.offset ==> ({
            let r = spec_check_truncation(v, file_len);
            &&& r.offset == 0
            &&& r.tools.len() == 0
            &&& r.agents.len() == 0
            &&& r.done_agents.len() == 0
            &&& r.tallies.len() == 0
            &&& r.todo is None
            &&& r.pending.len() == 0
            &&& r.links.len() == 0
            &&& r.items.len() == 0
        }),
        file_len >= v.offset ==> spec_check_truncation(v, file_len) == v,
{
}


/// Splits text into its raw newline-separated segments.
pub fn raw_lines(text: &str) -> (r: Vec<String>)
    ensures
        r@.map_values(|l: String| l@) =~= split_lines(text@),
{
    let v = crate::textutil::str_chars(text);
    let ghost t = text@;
    let n = v.len();
    let mut out: Vec<String> = Vec::new();
    let mut pos: usize = 0;
    assert(t.skip(0) =~= t);
    loop
        invariant_except_break
            v@ == t,
            n == t.len(),
            pos <= n,
            split_lines(t) =~= out@.map_values(|l: String| l@) + split_lines(t.skip(pos as int)),
        ensures
            split_lines(t) =~= out@.map_values(|l: String| l@),
        decreases n - pos,
    {
        let mut k: usize = pos;
        while k < n && v[k] != '\n'
            invariant
                pos <= k <= n,
                v@ == t,
                n == t.len(),
                forall|j: int| pos <= j < k ==> !is_nl(#[trigger] t[j]),
            decreases n - k,
        {
            k = k + 1;
        }
        let mut seg: Vec<char> = Vec::new();
        let mut i: usize = pos;
        while i < k
            invariant
                pos <= i <= k <= n,
                v@ == t,
                n == t.len(),
                seg@ =~= t.subrange(pos as int, i as int),
            decreases k - i,
        {
            seg.push(v[i]);
            assert(seg@ =~= t.subrange(pos as int, i + 1));
            i = i + 1;
        }
        let ghost before = out@.map_values(|l: String| l@);
        out.push(chars_to_string(&seg));
        assert(out@.map_values(|l: String| l@) =~= before + seq![t.subrange(pos as int, k as int)]);
        proof {
            lemma_raw_lines_step(t, pos as int, k as int);
        }
        if k == n {
            break;
        }
        pos = k + 1;
    }
    out
}

proof fn lemma_raw_lines_step(t: Seq<char>, pos: int, k: int)
    requires
        0 <= pos <= k <= t.len(),
        forall|j: int| pos <= j < k ==> !is_nl(#[trigger] t[j]),
        k < t.len() ==> is_nl(t[k]),
    ensures
        k < t.len() ==> split_lines(t.skip(pos)) =~= seq![t.subrange(pos, k)] + split_lines(
            t.skip(k + 1),
        ),
        k == t.len() ==> split_lines(t.skip(pos)) =~= seq![t.subrange(pos, k)],
{
    let rest = t.skip(pos);
    let p = |c: char| is_nl(c);
    if k < t.len() {
        assert forall|j: int| 0 <= j < k - pos implies !p(#[trigger] rest[j]) by {
            assert(rest[j] == t[pos + j]);
        }
        assert(rest[k - pos] == t[k]);
        crate::state::lemma_first_idx_found(rest, p, k - pos);
        assert(rest.take(k - pos) =~= t.subrange(pos, k));
        assert(rest.skip(k - pos + 1) =~= t.skip(k + 1));
    } else {
        assert forall|j: int| 0 <= j < rest.len() implies !p(#[trigger] rest[j]) by {
            assert(rest[j] == t[pos + j]);
        }
        crate::state::lemma_first_idx_none(rest, p);
        assert(rest =~= t.subrange(pos, k));
    }
}


/// A source of transcript-derived snapshots.
pub trait TranscriptCollector {
    fn collect_transcript(
        &self,
        payload: &crate::types::StdinPayload,
        state: &mut SessionState,
        config: &RenderConfig,
    ) -> TranscriptSnapshot;
}

/// A collector that reports no activity.
pub struct StubTranscriptCollector;

impl TranscriptCollector for StubTranscriptCollector {
    fn collect_transcript(
        &self,
        _payload: &crate::types::StdinPayload,
        _state: &mut SessionState,
        _config: &RenderConfig,
    ) -> (r: TranscriptSnapshot)
        ensures
            r.tools@.len() == 0,
            r.completed_counts@.len() == 0,
            r.agents@.len() == 0,
            r.todo is None,
    {
        TranscriptSnapshot {
            tools: Vec::new(),
            completed_counts: Vec::new(),
            agents: Vec::new(),
            todo: Option::None,
        }
    }
}

} // verus!
