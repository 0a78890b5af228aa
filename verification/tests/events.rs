use cc_pulseline::classify::{apply_transcript_event, is_terminal_status};
use cc_pulseline::json::parse_json_line;
use cc_pulseline::state::SessionState;

const NOW: u64 = 1_700_000_000_000;

fn apply(state: &mut SessionState, line: &str) {
    let ev = parse_json_line(line).expect("valid JSON");
    apply_transcript_event(state, &ev, NOW);
}

#[test]
fn terminal_statuses_are_case_insensitive() {
    assert!(is_terminal_status("completed"));
    assert!(is_terminal_status("DONE"));
    assert!(is_terminal_status("Failed"));
    assert!(is_terminal_status("cancelled"));
    assert!(is_terminal_status("canceled"));
    assert!(is_terminal_status("SUCCESS"));
    assert!(!is_terminal_status("running"));
    assert!(!is_terminal_status("pending"));
}

#[test]
fn nested_tool_use_extracts_truncated_target() {
    let mut state = SessionState::default();
    apply(
        &mut state,
        r#"{"message":{"content":[{"type":"tool_use","id":"t1","name":"Read","input":{"file_path":"/very/long/path/that/never/ends/really/main.rs"}}]}}"#,
    );
    assert_eq!(state.active_tools.len(), 1);
    assert_eq!(state.active_tools[0].name, "Read");
    assert_eq!(state.active_tools[0].target.as_deref(), Some(".../main.rs"));
}

#[test]
fn nested_task_block_queues_pending_link() {
    let mut state = SessionState::default();
    apply(
        &mut state,
        r#"{"message":{"content":[{"type":"tool_use","id":"task1","name":"Task","input":{"description":"explore the code","subagent_type":"scout"}}]}}"#,
    );
    assert!(state.active_tools.is_empty(), "a Task call is not a tool");
    assert_eq!(state.pending_tasks.len(), 1);
    assert_eq!(state.pending_tasks[0].description, "explore the code");
    assert_eq!(state.pending_tasks[0].agent_type.as_deref(), Some("scout"));
}

#[test]
fn progress_event_links_pending_task_description() {
    let mut state = SessionState::default();
    apply(
        &mut state,
        r#"{"message":{"content":[{"type":"tool_use","id":"task1","name":"Task","input":{"description":"rich description"}}]}}"#,
    );
    apply(
        &mut state,
        r#"{"type":"progress","data":{"type":"agent_progress","agentId":"agent-9","status":"running","prompt":"poor prompt"}}"#,
    );
    assert_eq!(state.active_agents.len(), 1);
    assert_eq!(state.active_agents[0].id, "agent-9");
    assert_eq!(
        state.active_agents[0].description, "rich description",
        "the Task description wins over the progress prompt"
    );
    assert_eq!(state.resolve_task_agent("task1").as_deref(), Some("agent-9"));
}

#[test]
fn linked_agent_description_never_overwritten_by_progress() {
    let mut state = SessionState::default();
    apply(
        &mut state,
        r#"{"message":{"content":[{"type":"tool_use","id":"task1","name":"Task","input":{"description":"rich description"}}]}}"#,
    );
    apply(
        &mut state,
        r#"{"type":"progress","data":{"type":"agent_progress","agentId":"agent-9","status":"running"}}"#,
    );
    apply(
        &mut state,
        r#"{"type":"progress","data":{"type":"agent_progress","agentId":"agent-9","status":"running","prompt":"noisy later prompt"}}"#,
    );
    assert_eq!(state.active_agents[0].description, "rich description");
}

#[test]
fn standalone_progress_uses_own_fields() {
    let mut state = SessionState::default();
    apply(
        &mut state,
        r#"{"type":"progress","data":{"type":"agent_progress","agent_id":"solo","state":"working","prompt":"free agent","agentType":"scout"}}"#,
    );
    assert_eq!(state.active_agents.len(), 1);
    assert_eq!(state.active_agents[0].id, "solo");
    assert_eq!(state.active_agents[0].description, "free agent");
    assert_eq!(state.active_agents[0].agent_type.as_deref(), Some("scout"));
}

#[test]
fn terminal_progress_completes_agent() {
    let mut state = SessionState::default();
    apply(
        &mut state,
        r#"{"type":"progress","data":{"type":"agent_progress","agentId":"a1","status":"running","prompt":"work"}}"#,
    );
    apply(
        &mut state,
        r#"{"type":"progress","data":{"type":"agent_progress","agentId":"a1","status":"Completed"}}"#,
    );
    assert!(state.active_agents.is_empty());
    assert_eq!(state.completed_agents.len(), 1);
    assert_eq!(state.completed_agents[0].id, "a1");
    assert!(state.completed_agents[0].completed_at.is_some());
}

#[test]
fn tool_result_resolves_linked_agent() {
    let mut state = SessionState::default();
    apply(
        &mut state,
        r#"{"message":{"content":[{"type":"tool_use","id":"task1","name":"Task","input":{"description":"sub work"}}]}}"#,
    );
    apply(
        &mut state,
        r#"{"type":"progress","data":{"type":"agent_progress","agentId":"agent-1","status":"running"}}"#,
    );
    apply(&mut state, r#"{"content":[{"type":"tool_result","tool_use_id":"task1"}]}"#);
    assert!(state.active_agents.is_empty(), "linked agent completed by its tool_result");
    assert_eq!(state.completed_agents.len(), 1);
    assert_eq!(state.completed_agents[0].description, "sub work");
}

#[test]
fn tool_result_before_progress_drains_pending() {
    let mut state = SessionState::default();
    apply(
        &mut state,
        r#"{"message":{"content":[{"type":"tool_use","id":"task1","name":"Task","input":{"description":"quick job"}}]}}"#,
    );
    apply(&mut state, r#"{"content":[{"type":"tool_result","tool_use_id":"task1"}]}"#);
    assert!(state.pending_tasks.is_empty(), "pending entry drained");
    assert_eq!(state.completed_agents.len(), 1);
    assert_eq!(state.completed_agents[0].description, "quick job");
}

#[test]
fn todowrite_sets_legacy_summary() {
    let mut state = SessionState::default();
    apply(
        &mut state,
        r#"{"type":"tool_use","name":"TodoWrite","input":{"todos":[{"status":"completed"},{"status":"pending"},{"status":"pending"}]}}"#,
    );
    let todo = state.todo.as_ref().expect("summary set");
    assert_eq!(todo.total, 3);
    assert_eq!(todo.completed, 1);
    assert_eq!(todo.pending, 2);
    assert_eq!(todo.text, "1/3 done, 2 pending");
}

#[test]
fn todowrite_all_done_clears_summary() {
    let mut state = SessionState::default();
    apply(
        &mut state,
        r#"{"type":"tool_use","name":"TodoWrite","input":{"todos":[{"status":"completed"},{"status":"DONE"}]}}"#,
    );
    assert!(state.todo.is_none(), "fully completed list yields no summary");
}

#[test]
fn taskcreate_and_taskupdate_accumulate() {
    let mut state = SessionState::default();
    apply(&mut state, r#"{"type":"TaskCreate","subject":"write docs"}"#);
    apply(&mut state, r#"{"type":"TaskCreate","subject":"fix bug"}"#);
    apply(&mut state, r#"{"type":"TaskUpdate","taskId":"1","status":"completed"}"#);
    let todo = state.todo.as_ref().expect("one item still pending");
    assert_eq!(todo.total, 2);
    assert_eq!(todo.completed, 1);
    assert_eq!(todo.pending, 1);
}

#[test]
fn flat_tool_use_without_id_gets_name_derived_id() {
    let mut state = SessionState::default();
    apply(&mut state, r#"{"type":"tool_use","name":"Grep"}"#);
    assert_eq!(state.active_tools.len(), 1);
    assert_eq!(state.active_tools[0].id, "Grep-active");
}

#[test]
fn malformed_event_is_ignored() {
    assert!(parse_json_line("this is not json").is_none());
    assert!(parse_json_line("").is_none());
    let parsed = parse_json_line(r#"{"nested":{"deep":[1,2,3]}}"#).expect("valid JSON");
    let mut state = SessionState::default();
    apply_transcript_event(&mut state, &parsed, NOW);
    assert!(state.active_tools.is_empty(), "unrecognized shapes change nothing");
}

#[test]
fn parsed_json_navigates_by_key() {
    let parsed = parse_json_line(r#"{"outer":{"inner":"value"},"name":"top"}"#).expect("valid");
    assert_eq!(parsed.get_string("name").as_deref(), Some("top"));
    assert_eq!(parsed.get_string2("outer", "inner").as_deref(), Some("value"));
    assert!(parsed.get_string("missing").is_none());
}
