//! The event classifier: three mutually exclusive transcript shapes are
//! tried per event, and the first structural match is applied to the
//! session state.

use vstd::prelude::*;

use crate::json::{json_get, jstr, jstr2, Json};
use crate::state::{
    spec_create_task_item, spec_drain_pending, spec_is_linked, spec_link_agent, spec_link_lookup,
    spec_push_pending, spec_remove_agent, spec_remove_tool, spec_set_todo, spec_update_task_item,
    spec_upsert_agent, spec_upsert_tool, first_idx, SessionState, StateV,
};
use crate::textutil::{
    chars_to_string, dec_of, lower_ascii, str_chars, str_eq, to_lower_ascii,
};
use crate::timestamp::{parse_iso_timestamp, spec_parse_iso_ms};
use crate::types::{ov, AgentV, PendingV, TodoV};

verus! {

// ---- Option-over-strings plumbing ----

pub open spec fn or_str(a: Option<Seq<char>>, b: Seq<char>) -> Seq<char> {
    match a {
        Option::Some(s) => s,
        Option::None => b,
    }
}

pub open spec fn or_opt(a: Option<Seq<char>>, b: Option<Seq<char>>) -> Option<Seq<char>> {
    match a {
        Option::Some(s) => Option::Some(s),
        Option::None => b,
    }
}

pub open spec fn fb_jstr(fb: Option<Json>, key: Seq<char>) -> Option<Seq<char>> {
    match fb {
        Option::Some(f) => jstr(f, key),
        Option::None => Option::None,
    }
}

// ---- Terminal agent status ----

/// A status that completes an agent, compared case-insensitively.
pub open spec fn spec_is_terminal(status: Seq<char>) -> bool {
    let l = lower_ascii(status);
    l == "completed"@ || l == "done"@ || l == "failed"@ || l == "cancelled"@ || l == "canceled"@
        || l == "success"@
}

pub fn is_terminal_status(status: &str) -> (r: bool)
    ensures
        r == spec_is_terminal(status@),
{
    let lv = to_lower_ascii(&str_chars(status));
    let l = chars_to_string(&lv);
    str_eq(l.as_str(), "completed") || str_eq(l.as_str(), "done") || str_eq(l.as_str(), "failed")
        || str_eq(l.as_str(), "cancelled") || str_eq(l.as_str(), "canceled") || str_eq(
        l.as_str(),
        "success",
    )
}

// ---- Display truncation ----

/// Truncation to a visible-character budget, with a three-dot ellipsis
/// when anything was cut and at least four characters may stand.
pub open spec fn spec_truncate_str(s: Seq<char>, max: nat) -> Seq<char> {
    if s.len() <= max {
        s
    } else if max <= 3 {
        s.take(max as int)
    } else {
        s.take(max - 3) + "..."@
    }
}

/// Truncates a string to `max_chars` characters, appending an ellipsis
/// when it was cut; never splits a character.
pub fn truncate_str(s: &str, max_chars: usize) -> (r: String)
    ensures
        r@ == spec_truncate_str(s@, max_chars as nat),
{
    let v = str_chars(s);
    if v.len() <= max_chars {
        return String::from_str(s);
    }
    let keep = if max_chars <= 3 {
        max_chars
    } else {
        max_chars - 3
    };
    let mut out: Vec<char> = Vec::new();
    let mut i: usize = 0;
    while i < keep
        invariant
            keep <= v@.len(),
            v@ == s@,
            i <= keep,
            out@ =~= v@.take(i as int),
        decreases keep - i,
    {
        out.push(v[i]);
        assert(out@ =~= v@.take(i + 1));
        i = i + 1;
    }
    if max_chars > 3 {
        let mut dots = str_chars("...");
        out.append(&mut dots);
    }
    let r = chars_to_string(&out);
    assert(r@ =~= spec_truncate_str(s@, max_chars as nat));
    r
}

/// The path component after the last slash; empty when the path ends with
/// a slash, the whole path when it holds none.
pub open spec fn spec_after_last_slash(p: Seq<char>) -> Seq<char>
    decreases p.len(),
{
    if p.len() == 0 {
        p
    } else if p.last() == '/' {
        Seq::empty()
    } else {
        spec_after_last_slash(p.drop_last()).push(p.last())
    }
}

proof fn lemma_after_slash(p: Seq<char>, k: int)
    requires
        0 <= k <= p.len(),
        forall|j: int| k <= j < p.len() ==> p[j] != '/',
        k > 0 ==> p[k - 1] == '/',
    ensures
        spec_after_last_slash(p) =~= p.skip(k),
    decreases p.len(),
{
    if p.len() == 0 {
    } else if k == p.len() {
        assert(p.last() == '/');
    } else {
        assert(p.last() != '/');
        assert forall|j: int| k <= j < p.drop_last().len() implies p.drop_last()[j] != '/' by {
            assert(p.drop_last()[j] == p[j]);
        }
        if k > 0 {
            assert(p.drop_last()[k - 1] == p[k - 1]);
        }
        lemma_after_slash(p.drop_last(), k);
        assert(spec_after_last_slash(p) =~= p.drop_last().skip(k).push(p.last()));
    }
}

/// Path truncation for display: over budget, it shows `.../<file>` when
/// that fits, else the truncated file name.
pub open spec fn spec_truncate_path(p: Seq<char>, max: nat) -> Seq<char> {
    if p.len() <= max {
        p
    } else {
        let f = spec_after_last_slash(p);
        if f.len() + 4 <= max {
            ".../"@ + f
        } else {
            spec_truncate_str(f, max)
        }
    }
}

/// Truncates a file path for display.
pub fn truncate_path(path: &str, max_chars: usize) -> (r: String)
    ensures
        r@ == spec_truncate_path(path@, max_chars as nat),
{
    let v = str_chars(path);
    if v.len() <= max_chars {
        return String::from_str(path);
    }
    let mut k: usize = v.len();
    while k > 0 && v[k - 1] != '/'
        invariant
            k <= v@.len(),
            v@ == path@,
            forall|j: int| k <= j < v@.len() ==> v@[j] != '/',
        decreases k,
    {
        k = k - 1;
    }
    proof {
        lemma_after_slash(path@, k as int);
    }
    let mut fname: Vec<char> = Vec::new();
    let mut i: usize = k;
    while i < v.len()
        invariant
            k <= i <= v@.len(),
            v@ == path@,
            fname@ =~= v@.subrange(k as int, i as int),
        decreases v@.len() - i,
    {
        fname.push(v[i]);
        assert(fname@ =~= v@.subrange(k as int, i + 1));
        i = i + 1;
    }
    assert(fname@ =~= spec_after_last_slash(path@));
    if max_chars >= 4 && fname.len() <= max_chars - 4 {
        let mut out = str_chars(".../");
        let mut tail = fname;
        out.append(&mut tail);
        let r = chars_to_string(&out);
        assert(r@ =~= spec_truncate_path(path@, max_chars as nat));
        r
    } else {
        let fs = chars_to_string(&fname);
        let r = truncate_str(fs.as_str(), max_chars);
        assert(r@ =~= spec_truncate_path(path@, max_chars as nat));
        r
    }
}

// ---- Target extraction ----

pub open spec fn target_of_key(input: Json, key: Seq<char>, is_path: bool, budget: nat) -> Option<
    Seq<char>,
> {
    match jstr(input, key) {
        Option::Some(s) => Option::Some(
            if is_path {
                spec_truncate_path(s, budget)
            } else {
                spec_truncate_str(s, budget)
            },
        ),
        Option::None => Option::None,
    }
}

/// The per-tool-name rule for a human-readable target out of a tool_use
/// block's input.
pub open spec fn spec_extract_target(name: Seq<char>, block: Json) -> Option<Seq<char>> {
    match json_get(block, "input"@) {
        Option::None => Option::None,
        Option::Some(input) => if name == "Read"@ || name == "Write"@ || name == "Edit"@ || name
            == "NotebookEdit"@ {
            target_of_key(input, "file_path"@, true, 30)
        } else if name == "Bash"@ {
            target_of_key(input, "command"@, false, 30)
        } else if name == "Glob"@ || name == "Grep"@ {
            target_of_key(input, "pattern"@, false, 20)
        } else if name == "WebFetch"@ {
            target_of_key(input, "url"@, false, 30)
        } else if name == "WebSearch"@ {
            target_of_key(input, "query"@, false, 30)
        } else if name == "Task"@ {
            Option::None
        } else {
            match target_of_key(input, "file_path"@, true, 30) {
                Option::Some(t) => Option::Some(t),
                Option::None => match target_of_key(input, "command"@, false, 30) {
                    Option::Some(t) => Option::Some(t),
                    Option::None => target_of_key(input, "pattern"@, false, 20),
                },
            }
        },
    }
}

fn target_from(input: &Json, key: &str, is_path: bool, budget: usize) -> (r: Option<String>)
    requires
        budget == 30 || budget == 20,
    ensures
        ov(r) == target_of_key(*input, key@, is_path, budget as nat),
{
    match input.get_string(key) {
        Option::Some(s) => {
            if is_path {
                Option::Some(truncate_path(s.as_str(), budget))
            } else {
                Option::Some(truncate_str(s.as_str(), budget))
            }
        },
        Option::None => Option::None,
    }
}

/// Extracts a display target from a tool_use block by the tool's name.
pub fn extract_target(name: &str, block: &Json) -> (r: Option<String>)
    ensures
        ov(r) == spec_extract_target(name@, *block),
{
    let input = match block.get("input") {
        Option::Some(v) => v,
        Option::None => {
            return Option::None;
        },
    };
    if str_eq(name, "Read") || str_eq(name, "Write") || str_eq(name, "Edit") || str_eq(
        name,
        "NotebookEdit",
    ) {
        target_from(input, "file_path", true, 30)
    } else if str_eq(name, "Bash") {
        target_from(input, "command", false, 30)
    } else if str_eq(name, "Glob") || str_eq(name, "Grep") {
        target_from(input, "pattern", false, 20)
    } else if str_eq(name, "WebFetch") {
        target_from(input, "url", false, 30)
    } else if str_eq(name, "WebSearch") {
        target_from(input, "query", false, 30)
    } else if str_eq(name, "Task") {
        Option::None
    } else {
        match target_from(input, "file_path", true, 30) {
            Option::Some(t) => Option::Some(t),
            Option::None => match target_from(input, "command", false, 30) {
                Option::Some(t) => Option::Some(t),
                Option::None => target_from(input, "pattern", false, 20),
            },
        }
    }
}


// ---- Todo extraction ----

/// A todos[] row that counts as finished.
pub open spec fn todo_done(t: Json) -> bool {
    match jstr(t, "status"@) {
        Option::Some(st) => lower_ascii(st) == "completed"@ || lower_ascii(st) == "done"@,
        Option::None => false,
    }
}

pub open spec fn count_done(s: Seq<Json>) -> nat
    decreases s.len(),
{
    if s.len() == 0 {
        0
    } else {
        count_done(s.drop_last()) + if todo_done(s.last()) {
            1nat
        } else {
            0nat
        }
    }
}

proof fn lemma_count_done_le(s: Seq<Json>)
    ensures
        count_done(s) <= s.len(),
    decreases s.len(),
{
    if s.len() > 0 {
        lemma_count_done_le(s.drop_last());
    }
}

pub open spec fn arr_at(j: Json, key: Seq<char>) -> Option<Seq<Json>> {
    match json_get(j, key) {
        Option::Some(v) => match v {
            Json::Arr(a) => Option::Some(a@),
            _ => Option::None,
        },
        Option::None => Option::None,
    }
}

pub open spec fn wrapper_todos(value: Json, k: Seq<char>) -> Option<Seq<Json>> {
    match json_get(value, k) {
        Option::Some(w) => arr_at(w, "todos"@),
        Option::None => Option::None,
    }
}

/// The todos[] array: at the top level first, then under the common
/// wrapper keys.
pub open spec fn spec_find_todos(value: Json) -> Option<Seq<Json>> {
    match arr_at(value, "todos"@) {
        Option::Some(a) => Option::Some(a),
        Option::None => match wrapper_todos(value, "input"@) {
            Option::Some(a) => Option::Some(a),
            Option::None => match wrapper_todos(value, "arguments"@) {
                Option::Some(a) => Option::Some(a),
                Option::None => match wrapper_todos(value, "args"@) {
                    Option::Some(a) => Option::Some(a),
                    Option::None => match wrapper_todos(value, "output"@) {
                        Option::Some(a) => Option::Some(a),
                        Option::None => wrapper_todos(value, "result"@),
                    },
                },
            },
        },
    }
}

pub open spec fn todo_text(completed: nat, total: nat, pending: nat) -> Seq<char> {
    dec_of(completed) + "/"@ + dec_of(total) + " done, "@ + dec_of(pending) + " pending"@
}

/// The todo aggregate a todos[] array yields: `None` when the array is
/// missing, empty, or fully completed.
pub open spec fn spec_extract_todo(value: Json) -> Option<TodoV> {
    match spec_find_todos(value) {
        Option::None => Option::None,
        Option::Some(todos) => if todos.len() == 0 {
            Option::None
        } else {
            let total = todos.len();
            let completed = count_done(todos);
            let pending = (total - completed) as nat;
            if pending == 0 {
                Option::None
            } else {
                Option::Some(
                    TodoV {
                        text: todo_text(completed, total, pending),
                        pending: pending as usize,
                        completed: completed as usize,
                        total: total as usize,
                    },
                )
            }
        },
    }
}

fn arr_at_exec<'a>(j: &'a Json, key: &str) -> (r: Option<&'a Vec<Json>>)
    ensures
        match r {
            Option::Some(a) => arr_at(*j, key@) == Option::Some(a@),
            Option::None => arr_at(*j, key@) is None,
        },
{
    match j.get(key) {
        Option::Some(v) => v.as_arr(),
        Option::None => Option::None,
    }
}

fn find_todos_array<'a>(value: &'a Json) -> (r: Option<&'a Vec<Json>>)
    ensures
        match r {
            Option::Some(a) => spec_find_todos(*value) == Option::Some(a@),
            Option::None => spec_find_todos(*value) is None,
        },
{
    match arr_at_exec(value, "todos") {
        Option::Some(a) => {
            return Option::Some(a);
        },
        Option::None => {},
    }
    let keys = ["input", "arguments", "args", "output", "result"];
    match value.get(keys[0]) {
        Option::Some(w) => match arr_at_exec(w, "todos") {
            Option::Some(a) => {
                return Option::Some(a);
            },
            Option::None => {},
        },
        Option::None => {},
    }
    match value.get(keys[1]) {
        Option::Some(w) => match arr_at_exec(w, "todos") {
            Option::Some(a) => {
                return Option::Some(a);
            },
            Option::None => {},
        },
        Option::None => {},
    }
    match value.get(keys[2]) {
        Option::Some(w) => match arr_at_exec(w, "todos") {
            Option::Some(a) => {
                return Option::Some(a);
            },
            Option::None => {},
        },
        Option::None => {},
    }
    match value.get(keys[3]) {
        Option::Some(w) => match arr_at_exec(w, "todos") {
            Option::Some(a) => {
                return Option::Some(a);
            },
            Option::None => {},
        },
        Option::None => {},
    }
    match value.get(keys[4]) {
        Option::Some(w) => match arr_at_exec(w, "todos") {
            Option::Some(a) => {
                return Option::Some(a);
            },
            Option::None => {},
        },
        Option::None => {},
    }
    Option::None
}

fn count_done_exec(todos: &Vec<Json>) -> (r: usize)
    ensures
        r == count_done(todos@),
        r <= todos@.len(),
{
    let mut n: usize = 0;
    let mut i: usize = 0;
    while i < todos.len()
        invariant
            i <= todos@.len(),
            n <= i,
            n == count_done(todos@.take(i as int)),
        decreases todos@.len() - i,
    {
        proof {
            assert(todos@.take(i + 1).drop_last() =~= todos@.take(i as int));
            assert(todos@.take(i + 1).last() == todos@[i as int]);
        }
        let done = match todos[i].get_string("status") {
            Option::Some(st) => {
                let l = chars_to_string(&to_lower_ascii(&str_chars(st.as_str())));
                str_eq(l.as_str(), "completed") || str_eq(l.as_str(), "done")
            },
            Option::None => false,
        };
        assert(done == todo_done(todos@[i as int]));
        if done {
            n = n + 1;
        }
        i = i + 1;
    }
    assert(todos@.take(todos@.len() as int) =~= todos@);
    n
}

/// Builds the `N/M done, K pending` display text.
fn todo_text_exec(completed: usize, total: usize, pending: usize) -> (r: String)
    ensures
        r@ == todo_text(completed as nat, total as nat, pending as nat),
{
    let mut t: Vec<char> = Vec::new();
    push_dec_usize(completed, &mut t);
    let mut p1 = str_chars("/");
    t.append(&mut p1);
    push_dec_usize(total, &mut t);
    let mut p2 = str_chars(" done, ");
    t.append(&mut p2);
    push_dec_usize(pending, &mut t);
    let mut p3 = str_chars(" pending");
    t.append(&mut p3);
    assert(t@ =~= todo_text(completed as nat, total as nat, pending as nat));
    chars_to_string(&t)
}

fn push_dec_usize(n: usize, out: &mut Vec<char>)
    ensures
        final(out)@ == old(out)@ + dec_of(n as nat),
{
    crate::textutil::push_dec(n as u64, out);
}

/// Scans a value for an embedded todos[] array and derives the aggregate.
pub fn extract_todo_summary(value: &Json) -> (r: Option<crate::types::TodoSummary>)
    ensures
        crate::state::opt_todo_v(r) == spec_extract_todo(*value),
{
    let todos = match find_todos_array(value) {
        Option::Some(a) => a,
        Option::None => {
            return Option::None;
        },
    };
    if todos.len() == 0 {
        return Option::None;
    }
    let total = todos.len();
    let completed = count_done_exec(todos);
    let pending = total - completed;
    if pending == 0 {
        return Option::None;
    }
    let text = todo_text_exec(completed, total, pending);
    Option::Some(crate::types::TodoSummary { text, pending, completed, total })
}


// ---- Shared task/todo dispatch ----

pub open spec fn fb_opt(fb: Option<&Json>) -> Option<Json> {
    match fb {
        Option::Some(f) => Option::Some(*f),
        Option::None => Option::None,
    }
}

pub open spec fn fb_todo(fb: Option<Json>) -> Option<TodoV> {
    match fb {
        Option::Some(f) => spec_extract_todo(f),
        Option::None => Option::None,
    }
}

pub open spec fn or_todo(a: Option<TodoV>, b: Option<TodoV>) -> Option<TodoV> {
    match a {
        Option::Some(t) => Option::Some(t),
        Option::None => b,
    }
}

/// Field read for TaskCreate/TaskUpdate events: directly, under `input`,
/// then on the enclosing raw event.
pub open spec fn task_field(event: Json, fb: Option<Json>, key: Seq<char>) -> Option<Seq<char>> {
    or_opt(jstr(event, key), or_opt(jstr2(event, "input"@, key), fb_jstr(fb, key)))
}

fn task_field_exec(event: &Json, fallback: Option<&Json>, key: &str) -> (r: Option<String>)
    ensures
        ov(r) == task_field(*event, fb_opt(fallback), key@),
{
    match event.get_string(key) {
        Option::Some(s) => Option::Some(s),
        Option::None => match event.get_string2("input", key) {
            Option::Some(s) => Option::Some(s),
            Option::None => match fallback {
                Option::Some(f) => f.get_string(key),
                Option::None => Option::None,
            },
        },
    }
}

/// A TaskCreate event: a new task item from `subject`/`activeForm`.
pub open spec fn spec_dispatch_task_create(v: StateV, event: Json, fb: Option<Json>) -> StateV {
    let subject = task_field(event, fb, "subject"@);
    let active_form = task_field(event, fb, "activeForm"@);
    match subject {
        Option::Some(su) => spec_create_task_item(v, su, active_form),
        Option::None => v,
    }
}

pub fn dispatch_task_create(state: &mut SessionState, event: &Json, fallback: Option<&Json>)
    ensures
        final(state)@ =~= spec_dispatch_task_create(old(state)@, *event, fb_opt(fallback)),
{
    let ghost v0 = state@;
    let subject = task_field_exec(event, fallback, "subject");
    let active_form = task_field_exec(event, fallback, "activeForm");
    match subject {
        Option::Some(su) => {
            state.create_task_item(su, active_form);
        },
        Option::None => {},
    }
    assert(state@ =~= spec_dispatch_task_create(v0, *event, fb_opt(fallback)));
}

/// A TaskUpdate event: `taskId` + `status` when present, else the legacy
/// whole todos[] overwrite.
pub open spec fn spec_dispatch_task_update(v: StateV, event: Json, fb: Option<Json>) -> StateV {
    match task_field(event, fb, "taskId"@) {
        Option::Some(id) => {
            let status = or_str(task_field(event, fb, "status"@), "pending"@);
            spec_update_task_item(v, id, status)
        },
        Option::None => {
            let todo = or_todo(spec_extract_todo(event), fb_todo(fb));
            spec_set_todo(v, todo)
        },
    }
}

pub fn dispatch_task_update(state: &mut SessionState, event: &Json, fallback: Option<&Json>)
    ensures
        final(state)@ =~= spec_dispatch_task_update(old(state)@, *event, fb_opt(fallback)),
{
    let ghost v0 = state@;
    match task_field_exec(event, fallback, "taskId") {
        Option::Some(id) => {
            let status = match task_field_exec(event, fallback, "status") {
                Option::Some(st) => st,
                Option::None => String::from_str("pending"),
            };
            state.update_task_item(id.as_str(), status.as_str());
        },
        Option::None => {
            let todo = match extract_todo_summary(event) {
                Option::Some(t) => Option::Some(t),
                Option::None => match fallback {
                    Option::Some(f) => extract_todo_summary(f),
                    Option::None => Option::None,
                },
            };
            state.set_todo(todo);
        },
    }
    assert(state@ =~= spec_dispatch_task_update(v0, *event, fb_opt(fallback)));
}

/// A TodoWrite event: the whole summary is replaced.
pub open spec fn spec_dispatch_todo_write(v: StateV, event: Json, fb: Option<Json>) -> StateV {
    spec_set_todo(v, or_todo(spec_extract_todo(event), fb_todo(fb)))
}

pub fn dispatch_todo_write(state: &mut SessionState, event: &Json, fallback: Option<&Json>)
    ensures
        final(state)@ =~= spec_dispatch_todo_write(old(state)@, *event, fb_opt(fallback)),
{
    let ghost v0 = state@;
    let todo = match extract_todo_summary(event) {
        Option::Some(t) => Option::Some(t),
        Option::None => match fallback {
            Option::Some(f) => extract_todo_summary(f),
            Option::None => Option::None,
        },
    };
    state.set_todo(todo);
    assert(state@ =~= spec_dispatch_todo_write(v0, *event, fb_opt(fallback)));
}

// ---- Tool-result completion with agent-link resolution ----

/// A tool_result for `id`: the tool is completed and tallied; the agent it
/// resolves to (by recorded link, else by a still-pending task) is
/// completed as well.
pub open spec fn spec_complete_tool_result(v: StateV, id: Seq<char>, now_ms: u64) -> StateV {
    let v1 = spec_remove_tool(v, id);
    match spec_link_lookup(v1, id) {
        Option::Some(agent) => spec_remove_agent(v1, agent, now_ms),
        Option::None => {
            let i = first_idx(v1.pending, crate::state::pending_id_is(id));
            if i >= 0 {
                let p = v1.pending[i];
                let v2 = spec_drain_pending(v1, id);
                let v3 = spec_upsert_agent(
                    v2,
                    id,
                    p.description,
                    p.agent_type,
                    p.event_ts,
                    p.model,
                    now_ms,
                );
                spec_remove_agent(v3, id, now_ms)
            } else {
                spec_remove_agent(v1, id, now_ms)
            }
        },
    }
}

pub fn complete_tool_result(state: &mut SessionState, tool_use_id: &str, now_ms: u64)
    ensures
        final(state)@ =~= spec_complete_tool_result(old(state)@, tool_use_id@, now_ms),
{
    let ghost v0 = state@;
    state.remove_tool(tool_use_id);
    match state.resolve_task_agent(tool_use_id) {
        Option::Some(agent) => {
            state.remove_agent(agent.as_str(), now_ms);
        },
        Option::None => {
            match state.drain_pending_task(tool_use_id) {
                Option::Some(p) => {
                    state.upsert_agent(
                        String::from_str(tool_use_id),
                        p.description,
                        p.agent_type,
                        p.event_ts,
                        p.model,
                        now_ms,
                    );
                    state.remove_agent(tool_use_id, now_ms);
                },
                Option::None => {
                    state.remove_agent(tool_use_id, now_ms);
                },
            }
        },
    }
    assert(state@ =~= spec_complete_tool_result(v0, tool_use_id@, now_ms));
}

// ---- Nested content blocks (first shape) ----

pub open spec fn json_get2(j: Json, k1: Seq<char>, k2: Seq<char>) -> Option<Json> {
    match json_get(j, k1) {
        Option::Some(v) => json_get(v, k2),
        Option::None => Option::None,
    }
}

pub open spec fn or_json(a: Option<Json>, b: Option<Json>) -> Option<Json> {
    match a {
        Option::Some(x) => Option::Some(x),
        Option::None => b,
    }
}

/// The description a Task block carries: its input's `description` field,
/// else its `prompt`, read as a string; "Task" when neither is one.
pub open spec fn task_block_desc(block: Json) -> Seq<char> {
    match or_json(json_get2(block, "input"@, "description"@), json_get2(block, "input"@, "prompt"@)) {
        Option::Some(d) => match d {
            Json::Str(s) => s@,
            _ => "Task"@,
        },
        Option::None => "Task"@,
    }
}

/// One typed block out of a content[] array.
pub open spec fn spec_apply_content_block(v: StateV, block: Json, ts: Option<u64>, now_ms: u64) -> StateV {
    match jstr(block, "type"@) {
        Option::None => v,
        Option::Some(t) => if t == "tool_use"@ {
            let name = or_str(jstr(block, "name"@), "unknown"@);
            let id = or_str(jstr(block, "id"@), "unknown-id"@);
            if name == "Task"@ {
                spec_push_pending(
                    v,
                    PendingV {
                        tool_use_id: id,
                        description: task_block_desc(block),
                        agent_type: jstr2(block, "input"@, "subagent_type"@),
                        model: jstr2(block, "input"@, "model"@),
                        event_ts: ts,
                    },
                )
            } else if name == "TaskCreate"@ {
                spec_dispatch_task_create(v, block, Option::None)
            } else if name == "TaskUpdate"@ {
                spec_dispatch_task_update(v, block, Option::None)
            } else if name == "TodoWrite"@ {
                spec_dispatch_todo_write(v, block, Option::None)
            } else {
                spec_upsert_tool(v, id, name, spec_extract_target(name, block))
            }
        } else if t == "tool_result"@ {
            let v1 = match jstr(block, "tool_use_id"@) {
                Option::Some(id) => spec_complete_tool_result(v, id, now_ms),
                Option::None => v,
            };
            match spec_extract_todo(block) {
                Option::Some(td) => spec_set_todo(v1, Option::Some(td)),
                Option::None => v1,
            }
        } else {
            v
        },
    }
}

pub fn apply_content_block(state: &mut SessionState, block: &Json, event_ts: Option<u64>, now_ms: u64)
    ensures
        final(state)@ =~= spec_apply_content_block(old(state)@, *block, event_ts, now_ms),
{
    let ghost v0 = state@;
    let bt = match block.get_string("type") {
        Option::Some(t) => t,
        Option::None => {
            assert(state@ =~= spec_apply_content_block(v0, *block, event_ts, now_ms));
            return;
        },
    };
    if str_eq(bt.as_str(), "tool_use") {
        let name = match block.get_string("name") {
            Option::Some(n) => n,
            Option::None => String::from_str("unknown"),
        };
        let id = match block.get_string("id") {
            Option::Some(i) => i,
            Option::None => String::from_str("unknown-id"),
        };
        if str_eq(name.as_str(), "Task") {
            let description = match block.get("input") {
                Option::Some(input) => {
                    let dv = match input.get("description") {
                        Option::Some(d) => Option::Some(d),
                        Option::None => input.get("prompt"),
                    };
                    match dv {
                        Option::Some(d) => match d.as_str_opt() {
                            Option::Some(s) => s.clone(),
                            Option::None => String::from_str("Task"),
                        },
                        Option::None => String::from_str("Task"),
                    }
                },
                Option::None => String::from_str("Task"),
            };
            assert(description@ == task_block_desc(*block));
            let agent_type = block.get_string2("input", "subagent_type");
            let model = block.get_string2("input", "model");
            state.push_pending_task(id, description, agent_type, model, event_ts);
            assert(state@ =~= spec_apply_content_block(v0, *block, event_ts, now_ms));
        } else if str_eq(name.as_str(), "TaskCreate") {
            dispatch_task_create(state, block, Option::None);
            assert(state@ =~= spec_apply_content_block(v0, *block, event_ts, now_ms));
        } else if str_eq(name.as_str(), "TaskUpdate") {
            dispatch_task_update(state, block, Option::None);
            assert(state@ =~= spec_apply_content_block(v0, *block, event_ts, now_ms));
        } else if str_eq(name.as_str(), "TodoWrite") {
            dispatch_todo_write(state, block, Option::None);
            assert(state@ =~= spec_apply_content_block(v0, *block, event_ts, now_ms));
        } else {
            let target = extract_target(name.as_str(), block);
            state.upsert_tool(id, name, target);
            assert(state@ =~= spec_apply_content_block(v0, *block, event_ts, now_ms));
        }
    } else if str_eq(bt.as_str(), "tool_result") {
        match block.get_string("tool_use_id") {
            Option::Some(id) => {
                complete_tool_result(state, id.as_str(), now_ms);
            },
            Option::None => {},
        }
        match extract_todo_summary(block) {
            Option::Some(td) => {
                state.set_todo(Option::Some(td));
            },
            Option::None => {},
        }
        assert(state@ =~= spec_apply_content_block(v0, *block, event_ts, now_ms));
    } else {
        assert(state@ =~= spec_apply_content_block(v0, *block, event_ts, now_ms));
    }
}

// ---- Progress events (second shape) ----

/// An agent_progress event: terminal statuses complete the agent; a new
/// unlinked id consumes the pending-task queue head; an already-linked id
/// keeps its richer Task description; a standalone id is upserted from the
/// event's own fields.
pub open spec fn spec_handle_agent_progress(v: StateV, data: Json, ts: Option<u64>, now_ms: u64) -> StateV {
    let agent_id = or_str(or_opt(jstr(data, "agentId"@), jstr(data, "agent_id"@)), "agent"@);
    let status = or_str(or_opt(jstr(data, "status"@), jstr(data, "state"@)), "running"@);
    if spec_is_terminal(status) {
        spec_remove_agent(v, agent_id, now_ms)
    } else {
        let is_new = first_idx(v.agents, crate::state::agent_id_is(agent_id)) == -1;
        if is_new && v.pending.len() > 0 {
            let p = v.pending[0];
            spec_upsert_agent(
                spec_link_agent(v, agent_id),
                agent_id,
                p.description,
                p.agent_type,
                p.event_ts,
                p.model,
                now_ms,
            )
        } else if spec_is_linked(v, agent_id) {
            v
        } else {
            let description = or_str(
                or_opt(jstr(data, "description"@), or_opt(jstr(data, "prompt"@), jstr(data, "message"@))),
                "Agent"@,
            );
            let agent_type = or_opt(jstr(data, "agentType"@), jstr(data, "subagent_type"@));
            spec_upsert_agent(v, agent_id, description, agent_type, ts, jstr(data, "model"@), now_ms)
        }
    }
}

pub fn handle_agent_progress(state: &mut SessionState, data: &Json, event_ts: Option<u64>, now_ms: u64)
    ensures
        final(state)@ =~= spec_handle_agent_progress(old(state)@, *data, event_ts, now_ms),
{
    let ghost v0 = state@;
    let agent_id = match data.get_string("agentId") {
        Option::Some(s) => s,
        Option::None => match data.get_string("agent_id") {
            Option::Some(s) => s,
            Option::None => String::from_str("agent"),
        },
    };
    let status = match data.get_string("status") {
        Option::Some(s) => s,
        Option::None => match data.get_string("state") {
            Option::Some(s) => s,
            Option::None => String::from_str("running"),
        },
    };
    if is_terminal_status(status.as_str()) {
        state.remove_agent(agent_id.as_str(), now_ms);
        assert(state@ =~= spec_handle_agent_progress(v0, *data, event_ts, now_ms));
        return;
    }
    let is_new = !state.has_active_agent(agent_id.as_str());
    if is_new {
        match state.link_agent_to_pending_task(agent_id.as_str()) {
            Option::Some(p) => {
                state.upsert_agent(
                    agent_id,
                    p.description,
                    p.agent_type,
                    p.event_ts,
                    p.model,
                    now_ms,
                );
                assert(state@ =~= spec_handle_agent_progress(v0, *data, event_ts, now_ms));
                return;
            },
            Option::None => {},
        }
    }
    if state.is_task_linked_agent(agent_id.as_str()) {
        assert(state@ =~= spec_handle_agent_progress(v0, *data, event_ts, now_ms));
        return;
    }
    let description = match data.get_string("description") {
        Option::Some(s) => s,
        Option::None => match data.get_string("prompt") {
            Option::Some(s) => s,
            Option::None => match data.get_string("message") {
                Option::Some(s) => s,
                Option::None => String::from_str("Agent"),
            },
        },
    };
    let agent_type = match data.get_string("agentType") {
        Option::Some(s) => Option::Some(s),
        Option::None => data.get_string("subagent_type"),
    };
    let model = data.get_string("model");
    state.upsert_agent(agent_id, description, agent_type, event_ts, model, now_ms);
    assert(state@ =~= spec_handle_agent_progress(v0, *data, event_ts, now_ms));
}


// ---- Flat legacy fallback (third shape) ----

/// Alias chain for an event's kind.
pub open spec fn flat_type(j: Json) -> Option<Seq<char>> {
    or_opt(jstr(j, "type"@), or_opt(jstr(j, "event"@), jstr(j, "event_type"@)))
}

/// Alias chain for a tool name.
pub open spec fn flat_name(j: Json) -> Option<Seq<char>> {
    or_opt(jstr(j, "name"@), or_opt(jstr(j, "tool_name"@), jstr(j, "tool"@)))
}

/// Alias chain for a tool_use id.
pub open spec fn flat_use_id(j: Json) -> Option<Seq<char>> {
    or_opt(jstr(j, "id"@), or_opt(jstr(j, "tool_use_id"@), jstr(j, "tool_call_id"@)))
}

/// Alias chain for a tool_result id.
pub open spec fn flat_result_id(j: Json) -> Option<Seq<char>> {
    or_opt(jstr(j, "tool_use_id"@), or_opt(jstr(j, "id"@), jstr(j, "tool_call_id"@)))
}

/// Alias chain for a Task id.
pub open spec fn flat_task_id(j: Json) -> Option<Seq<char>> {
    or_opt(jstr(j, "id"@), or_opt(jstr(j, "tool_use_id"@), jstr(j, "task_id"@)))
}

fn flat_type_exec(j: &Json) -> (r: Option<String>)
    ensures
        ov(r) == flat_type(*j),
{
    match j.get_string("type") {
        Option::Some(s) => Option::Some(s),
        Option::None => match j.get_string("event") {
            Option::Some(s) => Option::Some(s),
            Option::None => j.get_string("event_type"),
        },
    }
}

fn flat_name_exec(j: &Json) -> (r: Option<String>)
    ensures
        ov(r) == flat_name(*j),
{
    match j.get_string("name") {
        Option::Some(s) => Option::Some(s),
        Option::None => match j.get_string("tool_name") {
            Option::Some(s) => Option::Some(s),
            Option::None => j.get_string("tool"),
        },
    }
}

/// A flat "Task" event keyed by explicit status.
pub open spec fn spec_task_event(v: StateV, event: Json, ts: Option<u64>, now_ms: u64) -> StateV {
    let id = or_str(
        or_opt(jstr(event, "task_id"@), or_opt(jstr(event, "id"@), jstr(event, "name"@))),
        "task"@,
    );
    let summary = or_str(
        or_opt(jstr(event, "name"@), or_opt(jstr(event, "description"@), jstr(event, "prompt"@))),
        id,
    );
    let status = or_str(or_opt(jstr(event, "status"@), jstr(event, "state"@)), "running"@);
    if spec_is_terminal(status) {
        spec_remove_agent(v, id, now_ms)
    } else {
        spec_upsert_agent(v, id, summary, Option::None, ts, Option::None, now_ms)
    }
}

fn handle_task_event(state: &mut SessionState, event: &Json, event_ts: Option<u64>, now_ms: u64)
    ensures
        final(state)@ =~= spec_task_event(old(state)@, *event, event_ts, now_ms),
{
    let ghost v0 = state@;
    let id = match event.get_string("task_id") {
        Option::Some(s) => s,
        Option::None => match event.get_string("id") {
            Option::Some(s) => s,
            Option::None => match event.get_string("name") {
                Option::Some(s) => s,
                Option::None => String::from_str("task"),
            },
        },
    };
    let summary = match event.get_string("name") {
        Option::Some(s) => s,
        Option::None => match event.get_string("description") {
            Option::Some(s) => s,
            Option::None => match event.get_string("prompt") {
                Option::Some(s) => s,
                Option::None => id.clone(),
            },
        },
    };
    let status = match event.get_string("status") {
        Option::Some(s) => s,
        Option::None => match event.get_string("state") {
            Option::Some(s) => s,
            Option::None => String::from_str("running"),
        },
    };
    if is_terminal_status(status.as_str()) {
        state.remove_agent(id.as_str(), now_ms);
    } else {
        state.upsert_agent(id, summary, Option::None, event_ts, Option::None, now_ms);
    }
    assert(state@ =~= spec_task_event(v0, *event, event_ts, now_ms));
}

/// A flat tool_use of the Task tool.
pub open spec fn spec_task_from_tool_use(v: StateV, event: Json, raw: Json, ts: Option<u64>, now_ms: u64) -> StateV {
    let id = or_str(or_opt(flat_task_id(event), flat_task_id(raw)), "task-active"@);
    let summary = or_str(
        or_opt(
            or_opt(jstr(event, "name"@), or_opt(jstr(event, "description"@), jstr(event, "prompt"@))),
            or_opt(
                jstr2(event, "input"@, "description"@),
                or_opt(jstr2(event, "input"@, "prompt"@), jstr2(event, "arguments"@, "description"@)),
            ),
        ),
        "Task"@,
    );
    spec_upsert_agent(v, id, summary, Option::None, ts, Option::None, now_ms)
}

fn handle_task_from_tool_use(
    state: &mut SessionState,
    event: &Json,
    raw: &Json,
    event_ts: Option<u64>,
    now_ms: u64,
)
    ensures
        final(state)@ =~= spec_task_from_tool_use(old(state)@, *event, *raw, event_ts, now_ms),
{
    let ghost v0 = state@;
    let id_opt = match flat_task_id_exec(event) {
        Option::Some(s) => Option::Some(s),
        Option::None => flat_task_id_exec(raw),
    };
    let id = match id_opt {
        Option::Some(s) => s,
        Option::None => String::from_str("task-active"),
    };
    let summary_opt = match event.get_string("name") {
        Option::Some(s) => Option::Some(s),
        Option::None => match event.get_string("description") {
            Option::Some(s) => Option::Some(s),
            Option::None => match event.get_string("prompt") {
                Option::Some(s) => Option::Some(s),
                Option::None => match event.get_string2("input", "description") {
                    Option::Some(s) => Option::Some(s),
                    Option::None => match event.get_string2("input", "prompt") {
                        Option::Some(s) => Option::Some(s),
                        Option::None => event.get_string2("arguments", "description"),
                    },
                },
            },
        },
    };
    let summary = match summary_opt {
        Option::Some(s) => s,
        Option::None => String::from_str("Task"),
    };
    state.upsert_agent(id, summary, Option::None, event_ts, Option::None, now_ms);
    assert(state@ =~= spec_task_from_tool_use(v0, *event, *raw, event_ts, now_ms));
}

fn flat_task_id_exec(j: &Json) -> (r: Option<String>)
    ensures
        ov(r) == flat_task_id(*j),
{
    match j.get_string("id") {
        Option::Some(s) => Option::Some(s),
        Option::None => match j.get_string("tool_use_id") {
            Option::Some(s) => Option::Some(s),
            Option::None => j.get_string("task_id"),
        },
    }
}

/// A flat tool_use event: routed by tool name, else upserted with the id
/// alias chain (defaulting to `<name>-active`).
pub open spec fn spec_flat_tool_use(v: StateV, event: Json, raw: Json, ts: Option<u64>, now_ms: u64) -> StateV {
    let name = or_str(or_opt(flat_name(event), flat_name(raw)), "unknown"@);
    if name == "Task"@ {
        spec_task_from_tool_use(v, event, raw, ts, now_ms)
    } else if name == "TaskCreate"@ {
        spec_dispatch_task_create(v, event, Option::Some(raw))
    } else if name == "TaskUpdate"@ {
        spec_dispatch_task_update(v, event, Option::Some(raw))
    } else if name == "TodoWrite"@ {
        spec_dispatch_todo_write(v, event, Option::Some(raw))
    } else {
        let id = or_str(or_opt(flat_use_id(event), flat_use_id(raw)), name + "-active"@);
        spec_upsert_tool(v, id, name, Option::None)
    }
}

fn handle_flat_tool_use(
    state: &mut SessionState,
    event: &Json,
    raw: &Json,
    event_ts: Option<u64>,
    now_ms: u64,
)
    ensures
        final(state)@ =~= spec_flat_tool_use(old(state)@, *event, *raw, event_ts, now_ms),
{
    let ghost v0 = state@;
    let name = match flat_name_exec(event) {
        Option::Some(s) => s,
        Option::None => match flat_name_exec(raw) {
            Option::Some(s) => s,
            Option::None => String::from_str("unknown"),
        },
    };
    if str_eq(name.as_str(), "Task") {
        handle_task_from_tool_use(state, event, raw, event_ts, now_ms);
    } else if str_eq(name.as_str(), "TaskCreate") {
        dispatch_task_create(state, event, Option::Some(raw));
    } else if str_eq(name.as_str(), "TaskUpdate") {
        dispatch_task_update(state, event, Option::Some(raw));
    } else if str_eq(name.as_str(), "TodoWrite") {
        dispatch_todo_write(state, event, Option::Some(raw));
    } else {
        let id_opt = match flat_use_id_exec(event) {
            Option::Some(s) => Option::Some(s),
            Option::None => flat_use_id_exec(raw),
        };
        let id = match id_opt {
            Option::Some(s) => s,
            Option::None => {
                let mut idv = str_chars(name.as_str());
                let mut suf = str_chars("-active");
                idv.append(&mut suf);
                chars_to_string(&idv)
            },
        };
        state.upsert_tool(id, name, Option::None);
    }
    assert(state@ =~= spec_flat_tool_use(v0, *event, *raw, event_ts, now_ms));
}

fn flat_use_id_exec(j: &Json) -> (r: Option<String>)
    ensures
        ov(r) == flat_use_id(*j),
{
    match j.get_string("id") {
        Option::Some(s) => Option::Some(s),
        Option::None => match j.get_string("tool_use_id") {
            Option::Some(s) => Option::Some(s),
            Option::None => j.get_string("tool_call_id"),
        },
    }
}

/// A flat tool_result event.
pub open spec fn spec_flat_tool_result(v: StateV, event: Json, raw: Json, now_ms: u64) -> StateV {
    let v1 = match or_opt(flat_result_id(event), flat_result_id(raw)) {
        Option::Some(id) => spec_complete_tool_result(v, id, now_ms),
        Option::None => v,
    };
    match or_todo(spec_extract_todo(event), spec_extract_todo(raw)) {
        Option::Some(td) => spec_set_todo(v1, Option::Some(td)),
        Option::None => v1,
    }
}

fn handle_flat_tool_result(state: &mut SessionState, event: &Json, raw: &Json, now_ms: u64)
    ensures
        final(state)@ =~= spec_flat_tool_result(old(state)@, *event, *raw, now_ms),
{
    let ghost v0 = state@;
    let id_opt = match flat_result_id_exec(event) {
        Option::Some(s) => Option::Some(s),
        Option::None => flat_result_id_exec(raw),
    };
    match id_opt {
        Option::Some(id) => {
            complete_tool_result(state, id.as_str(), now_ms);
        },
        Option::None => {},
    }
    let todo = match extract_todo_summary(event) {
        Option::Some(t) => Option::Some(t),
        Option::None => extract_todo_summary(raw),
    };
    match todo {
        Option::Some(td) => {
            state.set_todo(Option::Some(td));
        },
        Option::None => {},
    }
    assert(state@ =~= spec_flat_tool_result(v0, *event, *raw, now_ms));
}

fn flat_result_id_exec(j: &Json) -> (r: Option<String>)
    ensures
        ov(r) == flat_result_id(*j),
{
    match j.get_string("tool_use_id") {
        Option::Some(s) => Option::Some(s),
        Option::None => match j.get_string("id") {
            Option::Some(s) => Option::Some(s),
            Option::None => j.get_string("tool_call_id"),
        },
    }
}

/// An event with no recognized kind, routed by tool name alone.
pub open spec fn spec_event_by_name(v: StateV, event: Json, raw: Json, ts: Option<u64>, now_ms: u64) -> StateV {
    match flat_name(event) {
        Option::None => v,
        Option::Some(name) => if name == "Task"@ {
            spec_task_from_tool_use(v, event, raw, ts, now_ms)
        } else if name == "TaskCreate"@ {
            spec_dispatch_task_create(v, event, Option::Some(raw))
        } else if name == "TaskUpdate"@ {
            spec_dispatch_task_update(v, event, Option::Some(raw))
        } else if name == "TodoWrite"@ {
            spec_dispatch_todo_write(v, event, Option::Some(raw))
        } else {
            v
        },
    }
}

fn handle_event_by_name(
    state: &mut SessionState,
    event: &Json,
    raw: &Json,
    event_ts: Option<u64>,
    now_ms: u64,
)
    ensures
        final(state)@ =~= spec_event_by_name(old(state)@, *event, *raw, event_ts, now_ms),
{
    let ghost v0 = state@;
    let name = match flat_name_exec(event) {
        Option::Some(s) => s,
        Option::None => {
            assert(state@ =~= spec_event_by_name(v0, *event, *raw, event_ts, now_ms));
            return;
        },
    };
    if str_eq(name.as_str(), "Task") {
        handle_task_from_tool_use(state, event, raw, event_ts, now_ms);
    } else if str_eq(name.as_str(), "TaskCreate") {
        dispatch_task_create(state, event, Option::Some(raw));
    } else if str_eq(name.as_str(), "TaskUpdate") {
        dispatch_task_update(state, event, Option::Some(raw));
    } else if str_eq(name.as_str(), "TodoWrite") {
        dispatch_todo_write(state, event, Option::Some(raw));
    }
    assert(state@ =~= spec_event_by_name(v0, *event, *raw, event_ts, now_ms));
}

/// The nested `message` object when there is one, else the event itself.
pub open spec fn flat_event_of(raw: Json) -> Json {
    match json_get(raw, "message"@) {
        Option::Some(m) => if m matches Json::Obj(_) {
            m
        } else {
            raw
        },
        Option::None => raw,
    }
}

/// The flat-format fallback, keyed by the type alias chain.
pub open spec fn spec_apply_flat(v: StateV, raw: Json, ts: Option<u64>, now_ms: u64) -> StateV {
    let event = flat_event_of(raw);
    let et = or_opt(flat_type(event), flat_type(raw));
    match et {
        Option::Some(t) => if t == "tool_use"@ {
            spec_flat_tool_use(v, event, raw, ts, now_ms)
        } else if t == "tool_result"@ {
            spec_flat_tool_result(v, event, raw, now_ms)
        } else if t == "Task"@ {
            spec_task_event(v, event, ts, now_ms)
        } else if t == "TaskCreate"@ {
            spec_dispatch_task_create(v, event, Option::Some(raw))
        } else if t == "TaskUpdate"@ {
            spec_dispatch_task_update(v, event, Option::Some(raw))
        } else if t == "TodoWrite"@ {
            spec_dispatch_todo_write(v, event, Option::Some(raw))
        } else {
            spec_event_by_name(v, event, raw, ts, now_ms)
        },
        Option::None => spec_event_by_name(v, event, raw, ts, now_ms),
    }
}

fn apply_flat_event(state: &mut SessionState, raw: &Json, event_ts: Option<u64>, now_ms: u64)
    ensures
        final(state)@ =~= spec_apply_flat(old(state)@, *raw, event_ts, now_ms),
{
    let ghost v0 = state@;
    let event: &Json = match raw.get("message") {
        Option::Some(m) => {
            if m.is_object() {
                m
            } else {
                raw
            }
        },
        Option::None => raw,
    };
    assert(*event == flat_event_of(*raw));
    let et_opt = match flat_type_exec(event) {
        Option::Some(s) => Option::Some(s),
        Option::None => flat_type_exec(raw),
    };
    match et_opt {
        Option::Some(t) => {
            if str_eq(t.as_str(), "tool_use") {
                handle_flat_tool_use(state, event, raw, event_ts, now_ms);
            } else if str_eq(t.as_str(), "tool_result") {
                handle_flat_tool_result(state, event, raw, now_ms);
            } else if str_eq(t.as_str(), "Task") {
                handle_task_event(state, event, event_ts, now_ms);
            } else if str_eq(t.as_str(), "TaskCreate") {
                dispatch_task_create(state, event, Option::Some(raw));
            } else if str_eq(t.as_str(), "TaskUpdate") {
                dispatch_task_update(state, event, Option::Some(raw));
            } else if str_eq(t.as_str(), "TodoWrite") {
                dispatch_todo_write(state, event, Option::Some(raw));
            } else {
                handle_event_by_name(state, event, raw, event_ts, now_ms);
            }
        },
        Option::None => {
            handle_event_by_name(state, event, raw, event_ts, now_ms);
        },
    }
    assert(state@ =~= spec_apply_flat(v0, *raw, event_ts, now_ms));
}

// ---- The three-shape dispatcher ----

pub open spec fn msg_content(ev: Json) -> Option<Seq<Json>> {
    match json_get(ev, "message"@) {
        Option::Some(m) => arr_at(m, "content"@),
        Option::None => Option::None,
    }
}

pub open spec fn content_arr(ev: Json) -> Option<Seq<Json>> {
    match msg_content(ev) {
        Option::Some(a) => Option::Some(a),
        Option::None => arr_at(ev, "content"@),
    }
}

pub open spec fn has_typed(a: Seq<Json>) -> bool {
    exists|i: int| 0 <= i < a.len() && jstr(#[trigger] a[i], "type"@) is Some
}

/// The content[] blocks, only when the array carries typed blocks.
pub open spec fn blocks_of(ev: Json) -> Option<Seq<Json>> {
    match content_arr(ev) {
        Option::Some(a) => if has_typed(a) {
            Option::Some(a)
        } else {
            Option::None
        },
        Option::None => Option::None,
    }
}

fn has_typed_exec(a: &Vec<Json>) -> (r: bool)
    ensures
        r == has_typed(a@),
{
    let mut i: usize = 0;
    while i < a.len()
        invariant
            i <= a@.len(),
            forall|j: int| 0 <= j < i ==> jstr(#[trigger] a@[j], "type"@) is None,
        decreases a@.len() - i,
    {
        match a[i].get_string("type") {
            Option::Some(_) => {
                assert(jstr(a@[i as int], "type"@) is Some);
                return true;
            },
            Option::None => {},
        }
        i = i + 1;
    }
    false
}

/// The event's top-level timestamp, parsed to epoch milliseconds.
pub open spec fn spec_event_ts(raw: Json) -> Option<u64> {
    match jstr(raw, "timestamp"@) {
        Option::Some(s) => spec_parse_iso_ms(s),
        Option::None => Option::None,
    }
}

pub open spec fn apply_blocks(v: StateV, a: Seq<Json>, ts: Option<u64>, now_ms: u64) -> StateV
    decreases a.len(),
{
    if a.len() == 0 {
        v
    } else {
        apply_blocks(spec_apply_content_block(v, a[0], ts, now_ms), a.drop_first(), ts, now_ms)
    }
}

/// Whether the event carries an agent_progress payload (second shape).
pub open spec fn is_progress_event(raw: Json) -> bool {
    jstr(raw, "type"@) == Option::Some("progress"@) && (match json_get(raw, "data"@) {
        Option::Some(d) => jstr(d, "type"@) == Option::Some("agent_progress"@),
        Option::None => false,
    })
}

/// One transcript event: nested content blocks first, then agent
/// progress, then the flat fallback.
#[verifier::opaque]
pub open spec fn spec_apply_event(v: StateV, raw: Json, now_ms: u64) -> StateV {
    let ts = spec_event_ts(raw);
    match blocks_of(raw) {
        Option::Some(a) => apply_blocks(v, a, ts, now_ms),
        Option::None => if is_progress_event(raw) {
            spec_handle_agent_progress(
                v,
                match json_get(raw, "data"@) {
                    Option::Some(d) => d,
                    Option::None => raw,
                },
                ts,
                now_ms,
            )
        } else {
            spec_apply_flat(v, raw, ts, now_ms)
        },
    }
}

/// Dispatches one raw transcript event to the matching shape handler.
pub fn apply_transcript_event(state: &mut SessionState, raw: &Json, now_ms: u64)
    ensures
        final(state)@ =~= spec_apply_event(old(state)@, *raw, now_ms),
{
    let ghost v0 = state@;
    proof {
        reveal(spec_apply_event);
    }
    let event_ts = match raw.get_string("timestamp") {
        Option::Some(s) => parse_iso_timestamp(s.as_str()),
        Option::None => Option::None,
    };
    assert(event_ts == spec_event_ts(*raw));
    let arr_opt: Option<&Vec<Json>> = match raw.get("message") {
        Option::Some(m) => match arr_at_exec(m, "content") {
            Option::Some(a) => Option::Some(a),
            Option::None => arr_at_exec(raw, "content"),
        },
        Option::None => arr_at_exec(raw, "content"),
    };
    match arr_opt {
        Option::Some(blocks) => {
            assert(content_arr(*raw) == Option::Some(blocks@));
            if has_typed_exec(blocks) {
                let ghost a = blocks@;
                assert(blocks_of(*raw) == Option::Some(a));
                let mut bi: usize = 0;
                assert(a.skip(0) =~= a);
                while bi < blocks.len()
                    invariant
                        bi <= a.len(),
                        blocks@ == a,
                        apply_blocks(v0, a, event_ts, now_ms) == apply_blocks(
                            state@,
                            a.skip(bi as int),
                            event_ts,
                            now_ms,
                        ),
                    decreases a.len() - bi,
                {
                    let ghost pre = state@;
                    apply_content_block(state, &blocks[bi], event_ts, now_ms);
                    proof {
                        assert(a.skip(bi as int)[0] == a[bi as int]);
                        assert(a.skip(bi as int).drop_first() =~= a.skip(bi + 1));
                        assert(state@ =~= spec_apply_content_block(pre, a[bi as int], event_ts, now_ms));
                    }
                    bi = bi + 1;
                }
                assert(a.skip(a.len() as int) =~= Seq::<Json>::empty());
                assert(state@ =~= spec_apply_event(v0, *raw, now_ms));
                return;
            }
        },
        Option::None => {},
    }
    let is_progress = match raw.get_string("type") {
        Option::Some(t) => str_eq(t.as_str(), "progress"),
        Option::None => false,
    };
    if is_progress {
        match raw.get("data") {
            Option::Some(data) => {
                let is_ap = match data.get_string("type") {
                    Option::Some(t) => str_eq(t.as_str(), "agent_progress"),
                    Option::None => false,
                };
                if is_ap {
                    assert(is_progress_event(*raw));
                    handle_agent_progress(state, data, event_ts, now_ms);
                    assert(state@ =~= spec_apply_event(v0, *raw, now_ms));
                    return;
                }
            },
            Option::None => {},
        }
    }
    assert(!is_progress_event(*raw));
    apply_flat_event(state, raw, event_ts, now_ms);
    assert(state@ =~= spec_apply_event(v0, *raw, now_ms));
}

/// A batch of events, oldest first.
pub open spec fn spec_apply_events(v: StateV, evs: Seq<Json>, now_ms: u64) -> StateV
    decreases evs.len(),
{
    if evs.len() == 0 {
        v
    } else {
        spec_apply_events(spec_apply_event(v, evs[0], now_ms), evs.drop_first(), now_ms)
    }
}

/// Applies a batch of parsed transcript events in order.
#[verifier::rlimit(60)]
pub fn apply_events(state: &mut SessionState, events: &Vec<Json>, now_ms: u64)
    ensures
        final(state)@ =~= spec_apply_events(old(state)@, events@, now_ms),
{
    let ghost v0 = state@;
    let ghost a = events@;
    let mut i: usize = 0;
    assert(a.skip(0) =~= a);
    while i < events.len()
        invariant
            i <= a.len(),
            events@ == a,
            spec_apply_events(v0, a, now_ms) == spec_apply_events(
                state@,
                a.skip(i as int),
                now_ms,
            ),
        decreases a.len() - i,
    {
        let ghost pre = state@;
        apply_transcript_event(state, &events[i], now_ms);
        proof {
            assert(a.skip(i as int)[0] == a[i as int]);
            assert(a.skip(i as int).drop_first() =~= a.skip(i + 1));
            assert(state@ =~= spec_apply_event(pre, a[i as int], now_ms));
        }
        i = i + 1;
    }
    assert(a.skip(a.len() as int) =~= Seq::<Json>::empty());
    assert(state@ =~= spec_apply_events(v0, a, now_ms));
}

} // verus!
