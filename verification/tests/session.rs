use cc_pulseline::cache::CACHE_TTL_MS;
use cc_pulseline::classify::apply_transcript_event;
use cc_pulseline::config::RenderConfig;
use cc_pulseline::json::parse_json_line;
use cc_pulseline::reader::{absorb_new_text, should_throttle, snapshot_from_state};
use cc_pulseline::state::SessionState;
use cc_pulseline::types::EnvSnapshot;

const NOW: u64 = 1_700_000_000_000;

#[test]
fn upsert_tool_replaces_and_moves_to_front() {
    let mut state = SessionState::default();
    state.upsert_tool("t1".to_string(), "Read".to_string(), Some("/a".to_string()));
    state.upsert_tool("t2".to_string(), "Bash".to_string(), None);
    state.upsert_tool("t1".to_string(), "Read".to_string(), Some("/b".to_string()));

    let entries: Vec<_> = state.active_tools.iter().filter(|t| t.id == "t1").collect();
    assert_eq!(entries.len(), 1, "exactly one active entry for the id");
    assert_eq!(entries[0].target.as_deref(), Some("/b"));
    assert_eq!(state.active_tools.last().unwrap().id, "t1", "re-upsert moves to most recent");
}

#[test]
fn remove_never_added_id_leaves_tallies_unchanged() {
    let mut state = SessionState::default();
    state.upsert_tool("t1".to_string(), "Read".to_string(), None);
    state.remove_tool("missing");
    assert!(state.top_completed_tools(10).is_empty());
    assert_eq!(state.active_tools.len(), 1);
}

#[test]
fn remove_added_id_increments_tally_by_one() {
    let mut state = SessionState::default();
    state.upsert_tool("t1".to_string(), "Read".to_string(), None);
    state.remove_tool("t1");
    let tallies = state.top_completed_tools(10);
    assert_eq!(tallies.len(), 1);
    assert_eq!(tallies[0].name, "Read");
    assert_eq!(tallies[0].count, 1);
    assert!(state.active_tools.is_empty());
}

#[test]
fn completed_tools_ranked_by_count_then_name() {
    let mut state = SessionState::default();
    for _ in 0..3 {
        state.record_tool_completion("Bash");
    }
    state.record_tool_completion("Edit");
    state.record_tool_completion("Read");
    let ranked = state.top_completed_tools(2);
    assert_eq!(ranked.len(), 2);
    assert_eq!(ranked[0].name, "Bash");
    assert_eq!(ranked[0].count, 3);
    assert_eq!(ranked[1].name, "Edit", "ties rank by name ascending");
}

#[test]
fn fifo_linking_matches_oldest_pending_first() {
    let mut state = SessionState::default();
    state.push_pending_task("a".to_string(), "first".to_string(), None, None, None);
    state.push_pending_task("b".to_string(), "second".to_string(), None, None, None);

    let p1 = state.link_agent_to_pending_task("X").expect("head dequeued");
    assert_eq!(p1.tool_use_id, "a");
    let p2 = state.link_agent_to_pending_task("Y").expect("next dequeued");
    assert_eq!(p2.tool_use_id, "b");

    assert_eq!(state.resolve_task_agent("a").as_deref(), Some("X"));
    assert_eq!(state.resolve_task_agent("b").as_deref(), Some("Y"));
    assert!(state.link_agent_to_pending_task("Z").is_none(), "queue is empty");
    assert!(state.is_task_linked_agent("X"));
    assert!(!state.is_task_linked_agent("Z"));
}

#[test]
fn drain_pending_task_removes_by_tool_id() {
    let mut state = SessionState::default();
    state.push_pending_task("a".to_string(), "first".to_string(), None, None, None);
    state.push_pending_task("b".to_string(), "second".to_string(), None, None, None);
    let drained = state.drain_pending_task("b").expect("entry drained");
    assert_eq!(drained.description, "second");
    assert_eq!(state.pending_tasks.len(), 1);
    assert!(state.drain_pending_task("b").is_none());
}

#[test]
fn todo_aggregate_counts_pending() {
    let mut state = SessionState::default();
    state.create_task_item("one".to_string(), None);
    state.create_task_item("two".to_string(), None);
    state.create_task_item("three".to_string(), None);
    state.update_task_item("1", "completed");
    state.update_task_item("2", "completed");

    let todo = state.todo.as_ref().expect("summary present while pending");
    assert_eq!(todo.total, 3);
    assert_eq!(todo.completed, 2);
    assert_eq!(todo.pending, 1);
    assert_eq!(todo.text, "2/3 done, 1 pending");

    state.update_task_item("3", "completed");
    assert!(state.todo.is_none(), "summary absent when everything is completed");
}

#[test]
fn todo_deleted_status_removes_item() {
    let mut state = SessionState::default();
    state.create_task_item("one".to_string(), None);
    state.create_task_item("two".to_string(), None);
    state.update_task_item("1", "deleted");
    let todo = state.todo.as_ref().expect("one pending remains");
    assert_eq!(todo.total, 1);
    assert_eq!(todo.pending, 1);
}

#[test]
fn completed_agents_pruned_to_ten() {
    let mut state = SessionState::default();
    for i in 0..12 {
        let id = format!("agent-{i}");
        state.upsert_agent(id.clone(), "work".to_string(), None, Some(NOW + i), None, NOW);
        state.remove_agent(&id, NOW + 100 + i);
    }
    assert_eq!(state.completed_agents.len(), 10, "oldest completed agents evicted");
    assert_eq!(state.completed_agents[0].id, "agent-2");
}

#[test]
fn agents_for_display_lists_active_before_completed() {
    let mut state = SessionState::default();
    state.upsert_agent("done1".to_string(), "old".to_string(), None, Some(NOW), None, NOW);
    state.remove_agent("done1", NOW + 50);
    state.upsert_agent("run1".to_string(), "current".to_string(), None, Some(NOW), None, NOW);
    let rows = state.agents_for_display(2);
    assert_eq!(rows.len(), 2);
    assert_eq!(rows[0].id, "run1");
    assert!(rows[0].completed_at.is_none());
    assert_eq!(rows[1].id, "done1");
    assert!(rows[1].completed_at.is_some());
}

#[test]
fn upsert_agent_keeps_recorded_start_and_model() {
    let mut state = SessionState::default();
    state.upsert_agent(
        "a1".to_string(),
        "first".to_string(),
        None,
        Some(123),
        Some("fast".to_string()),
        NOW,
    );
    state.upsert_agent("a1".to_string(), "second".to_string(), None, Some(999), None, NOW);
    assert_eq!(state.active_agents.len(), 1);
    assert_eq!(state.active_agents[0].description, "second");
    assert_eq!(state.active_agents[0].started_at, Some(123), "recorded start wins");
    assert_eq!(state.active_agents[0].model.as_deref(), Some("fast"), "recorded model kept");
}

#[test]
fn cache_round_trip_preserves_projections() {
    let mut state = SessionState::default();
    state.upsert_tool("t1".to_string(), "Bash".to_string(), Some("cargo".to_string()));
    state.record_tool_completion("Read");
    state.upsert_agent("a1".to_string(), "explore".to_string(), None, Some(NOW), None, NOW);
    state.create_task_item("step".to_string(), None);
    state.set_cached_env(
        "/proj".to_string(),
        EnvSnapshot {
            claude_md_count: 2,
            rules_count: 1,
            hooks_count: 0,
            mcp_count: 0,
            memory_count: 0,
            skills_count: 0,
        },
    );

    let cache = state.to_cache(NOW);
    let mut fresh = SessionState::default();
    fresh.load_from_cache(cache, NOW + 1);

    let config = RenderConfig::default();
    let before = snapshot_from_state(&state, &config);
    let after = snapshot_from_state(&fresh, &config);
    assert_eq!(before.tools.len(), after.tools.len());
    assert_eq!(after.tools[0].name, "Bash");
    assert_eq!(after.completed_counts[0].name, "Read");
    assert_eq!(after.agents[0].id, "a1");
    assert_eq!(after.todo.as_ref().unwrap().total, 1);
    assert!(fresh.cached_env_for("/proj").is_some(), "env snapshot young enough to restore");
}

#[test]
fn cache_load_drops_aged_env_and_git() {
    let mut state = SessionState::default();
    state.set_cached_env(
        "/proj".to_string(),
        EnvSnapshot {
            claude_md_count: 1,
            rules_count: 0,
            hooks_count: 0,
            mcp_count: 0,
            memory_count: 0,
            skills_count: 0,
        },
    );
    let cache = state.to_cache(NOW);
    let mut fresh = SessionState::default();
    fresh.load_from_cache(cache, NOW + CACHE_TTL_MS + 1);
    assert!(fresh.cached_env_for("/proj").is_none(), "stale snapshot dropped on load");
}

#[test]
fn end_to_end_tool_lifecycle_from_raw_events() {
    let mut state = SessionState::default();
    let ev1 = parse_json_line(r#"{"type":"tool_use","tool_use_id":"t1","name":"Bash"}"#)
        .expect("valid JSON parses");
    apply_transcript_event(&mut state, &ev1, NOW);

    let config = RenderConfig::default();
    let snap = snapshot_from_state(&state, &config);
    assert_eq!(snap.tools.len(), 1, "exactly one active tool");
    assert_eq!(snap.tools[0].name, "Bash");

    let ev2 = parse_json_line(r#"{"type":"tool_result","tool_use_id":"t1"}"#).expect("valid JSON");
    apply_transcript_event(&mut state, &ev2, NOW);

    let snap = snapshot_from_state(&state, &config);
    assert!(snap.tools.is_empty(), "completion clears the running entry");
    assert_eq!(snap.completed_counts.len(), 1);
    assert_eq!(snap.completed_counts[0].name, "Bash");
    assert_eq!(snap.completed_counts[0].count, 1, "the completed tally reads one");
}

#[test]
fn absorb_reads_lines_and_advances_offset() {
    let mut state = SessionState::default();
    let text = "{\"type\":\"tool_use\",\"tool_use_id\":\"t1\",\"name\":\"Read\"}\nnot json at all\n{\"type\":\"tool_use\",\"tool_use_id\":\"t2\",\"name\":\"Grep\"}\n";
    absorb_new_text(&mut state, text, text.len() as u64, 0, NOW);
    assert_eq!(state.last_transcript_offset, text.len() as u64);
    assert_eq!(state.last_transcript_poll_ms, Some(NOW));
    assert_eq!(state.active_tools.len(), 2, "malformed line dropped, others applied");
}

#[test]
fn replaying_consumed_range_changes_nothing() {
    let mut state = SessionState::default();
    let text = "{\"type\":\"tool_use\",\"tool_use_id\":\"t1\",\"name\":\"Read\"}\n";
    absorb_new_text(&mut state, text, text.len() as u64, 0, NOW);
    let tools_before = state.active_tools.len();
    let tallies_before = state.top_completed_tools(10).len();

    absorb_new_text(&mut state, "", text.len() as u64, 0, NOW + 500);
    assert_eq!(state.active_tools.len(), tools_before, "derived state unchanged");
    assert_eq!(state.top_completed_tools(10).len(), tallies_before);
    assert_eq!(state.last_transcript_offset, text.len() as u64);
}

#[test]
fn shrunken_file_resets_offset_and_collections() {
    let mut state = SessionState::default();
    let text = "{\"type\":\"tool_use\",\"tool_use_id\":\"t1\",\"name\":\"Read\"}\n";
    absorb_new_text(&mut state, text, text.len() as u64, 0, NOW);
    assert!(!state.active_tools.is_empty());

    state.apply_truncation_check(3);
    assert_eq!(state.last_transcript_offset, 0);
    assert!(state.active_tools.is_empty());
    assert!(state.todo.is_none());
}

#[test]
fn windowing_keeps_only_newest_events() {
    let mut state = SessionState::default();
    let mut text = String::new();
    for i in 0..5 {
        text.push_str(&format!(
            "{{\"type\":\"tool_use\",\"tool_use_id\":\"t{i}\",\"name\":\"Read\"}}\n"
        ));
    }
    absorb_new_text(&mut state, &text, text.len() as u64, 2, NOW);
    assert_eq!(state.active_tools.len(), 2, "burst capped to the window");
    assert_eq!(state.active_tools[0].id, "t3");
    assert_eq!(state.active_tools[1].id, "t4");
}

#[test]
fn throttle_skips_rapid_polls() {
    assert!(should_throttle(Some(NOW), NOW + 100, 250));
    assert!(!should_throttle(Some(NOW), NOW + 300, 250));
    assert!(!should_throttle(None, NOW, 250));
    assert!(!should_throttle(Some(NOW), NOW + 1, 0), "zero throttle disables skipping");
}

#[test]
fn path_change_resets_everything() {
    let mut state = SessionState::default();
    state.upsert_tool("t1".to_string(), "Read".to_string(), None);
    state.reset_transcript_if_path_changed("/a.jsonl");
    assert!(state.active_tools.is_empty(), "first path observation resets");
    state.upsert_tool("t2".to_string(), "Bash".to_string(), None);
    state.reset_transcript_if_path_changed("/a.jsonl");
    assert_eq!(state.active_tools.len(), 1, "same path keeps state");
    state.reset_transcript_if_path_changed("/b.jsonl");
    assert!(state.active_tools.is_empty(), "new path clears derived state");
}
