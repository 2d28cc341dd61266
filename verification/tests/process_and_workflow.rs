use codeg_core::json::parse_json;
use codeg_core::process_owner::ProcessOwnerRegistry;
use codeg_core::text::key_less;
use codeg_core::run_settled::{
    collect_file_changes_from_tools, op_from_kind, paths_from_tool_call, push_path, FileChangeOp,
    ToolCallState, ToolKind,
};
use codeg_core::workflow_adapt::{
    adapt_air_workflow, adapt_grok_workflow, agent_counts, AgentType, AsyncTaskDelta,
    AsyncTaskUsage, WorkflowAgent,
};

#[test]
fn zero_pid_is_never_registered() {
    let mut reg = ProcessOwnerRegistry::new();
    reg.register(0);
    assert!(reg.pids().is_empty());
}

#[test]
fn unregister_and_take_clear_the_set() {
    let mut reg = ProcessOwnerRegistry::new();
    reg.register(7);
    reg.register(9);
    reg.unregister(7);
    let left = reg.take_pids();
    assert_eq!(left, vec![9]);
    assert!(reg.pids().is_empty());
}

#[test]
fn registering_twice_keeps_one_entry() {
    let mut reg = ProcessOwnerRegistry::new();
    reg.register(5);
    reg.register(5);
    reg.register(6);
    let mut pids = reg.pids();
    pids.sort();
    assert_eq!(pids, vec![5, 6]);
    reg.unregister(42);
    assert_eq!(reg.pids().len(), 2);
}

fn grok_params(update: &str) -> codeg_core::json::JsonValue {
    parse_json(&format!(r#"{{"sessionId": "s", "update": {update}}}"#)).expect("json")
}

#[test]
fn grok_first_frame_spawns_a_running_row() {
    let mut seen = Vec::new();
    let delta = adapt_grok_workflow(
        AgentType::Grok,
        "_x.ai/session/update",
        &grok_params(
            r#"{
                "sessionUpdate": "workflow_updated",
                "run_id": "wf_1",
                "revision": 1,
                "name": "deep-research",
                "objective": "survey sensors",
                "status": "active",
                "phases": [
                    {"title": "Plan", "detail": "Choose research questions", "state": "pending"},
                    {"title": "Research", "state": "pending"}
                ],
                "agent_budget": 128,
                "agents_used": 0,
                "agents_remaining": 128,
                "active_agents": 0,
                "elapsed_ms": 7
            }"#,
        ),
        &mut seen,
    )
    .expect("mapped");
    assert!(delta.spawned);
    assert_eq!(delta.run_id, "wf_1");
    assert_eq!(delta.name.as_deref(), Some("deep-research"));
    assert_eq!(delta.objective.as_deref(), Some("survey sensors"));
    assert_eq!(delta.state.as_deref(), Some("running"));
    assert_eq!(delta.can_stop, Some(false));
    let phases = delta.phases.expect("phases");
    assert_eq!(phases.len(), 2);
    assert_eq!(phases[0].title, "Plan");
    assert_eq!(
        phases[0].detail.as_deref(),
        Some("Choose research questions")
    );
    assert_eq!(delta.agents_done, Some(0));
    assert_eq!(delta.agents_running, Some(0));
    assert_eq!(delta.agent_budget, Some(128));
    assert_eq!(delta.agents_remaining, Some(128));
}

#[test]
fn grok_later_frame_is_progress_with_phase_and_counts() {
    let mut seen = vec!["wf_1".to_string()];
    let delta = adapt_grok_workflow(
        AgentType::Grok,
        "_x.ai/session_notification",
        &grok_params(
            r#"{
                "sessionUpdate": "workflow_updated",
                "run_id": "wf_1",
                "status": "active",
                "current_phase": "Research",
                "phases": [
                    {"title": "Plan", "state": "done"},
                    {"title": "Research", "state": "active"},
                    {"title": "Verify", "state": "pending"},
                    {"title": "Report", "state": "pending"}
                ],
                "agents_used": 1,
                "active_agents": 4,
                "elapsed_ms": 43362,
                "last_event": "phase_entered",
                "last_event_detail": "Research",
                "agents": [{
                    "agent_id": "ag_1",
                    "label": "research-planner",
                    "phase": "Plan",
                    "state": "done",
                    "task": "Break the query into independent questions",
                    "tokens_used": 22284,
                    "duration_ms": 43281
                }]
            }"#,
        ),
        &mut seen,
    )
    .expect("mapped");
    assert!(!delta.spawned);
    assert_eq!(delta.current_phase.as_deref(), Some("Research"));
    assert_eq!(delta.agents_done, Some(1));
    assert_eq!(delta.agents_running, Some(4));
    assert_eq!(delta.elapsed_ms, Some(43362));
    assert_eq!(delta.last_event.as_deref(), Some("phase_entered"));
    assert_eq!(delta.last_event_detail.as_deref(), Some("Research"));
    assert_eq!(delta.agent_budget, None);
    let agents = delta.agents.expect("agents");
    assert_eq!(agents.len(), 1);
    assert_eq!(agents[0].agent_id, "ag_1");
    assert_eq!(agents[0].label, "research-planner");
    assert_eq!(
        agents[0].summary.as_deref(),
        Some("Break the query into independent questions")
    );
    assert_eq!(agents[0].phase.as_deref(), Some("Plan"));
    assert_eq!(agents[0].state, "done");
    assert_eq!(agents[0].tokens_used, Some(22284));
    assert_eq!(agents[0].duration_ms, Some(43281));
}

#[test]
fn grok_complete_is_terminal() {
    let mut seen = vec!["wf_1".to_string()];
    let delta = adapt_grok_workflow(
        AgentType::Grok,
        "_x.ai/session/update",
        &grok_params(
            r#"{
                "sessionUpdate": "workflow_updated",
                "run_id": "wf_1",
                "name": "deep-research",
                "status": "complete",
                "current_phase": "Report",
                "last_event": "workflow_completed"
            }"#,
        ),
        &mut seen,
    )
    .expect("mapped");
    assert_eq!(delta.state.as_deref(), Some("completed"));
    assert_eq!(delta.last_event.as_deref(), Some("workflow_completed"));
}

#[test]
fn grok_adapter_ignores_other_agents_and_variants() {
    let mut seen: Vec<String> = Vec::new();
    let update = r#"{
        "sessionUpdate": "workflow_updated",
        "run_id": "wf_1",
        "status": "active"
    }"#;
    assert!(adapt_grok_workflow(
        AgentType::ClaudeCode,
        "_x.ai/session/update",
        &grok_params(update),
        &mut seen
    )
    .is_none());
    assert!(adapt_grok_workflow(AgentType::Grok, "session/update", &grok_params(update), &mut seen)
        .is_none());
    assert!(seen.is_empty());
}

fn air(task_type: &str, spawned: bool) -> AsyncTaskDelta {
    AsyncTaskDelta {
        task_id: "t-wf".into(),
        spawned,
        name: Some("explore".into()),
        task_type: Some(task_type.into()),
        description: Some("scan the repo".into()),
        show_in_transcript: Some(false),
        can_stop: Some(true),
        state: Some("running".into()),
        summary: Some("searching".into()),
        last_tool_name: Some("Grep".into()),
        usage: None,
        output_file_path: None,
        tool_call_id: Some("call-1".into()),
    }
}

#[test]
fn air_workflow_type_is_adapted() {
    let delta = adapt_air_workflow(&air("workflow", true), false).expect("mapped");
    assert!(delta.spawned);
    assert_eq!(delta.run_id, "t-wf");
    assert_eq!(delta.name.as_deref(), Some("explore"));
    assert_eq!(delta.objective.as_deref(), Some("scan the repo"));
    assert_eq!(delta.current_phase.as_deref(), Some("Grep"));
    assert_eq!(delta.last_event.as_deref(), Some("searching"));
    assert_eq!(delta.can_stop, Some(true));
}

#[test]
fn air_shell_is_not_a_workflow() {
    assert!(adapt_air_workflow(&air("shell", true), false).is_none());
}

#[test]
fn air_progress_without_type_still_routes_when_known() {
    let mut delta = air("workflow", false);
    delta.task_type = None;
    assert!(adapt_air_workflow(&delta, false).is_none());
    let mapped = adapt_air_workflow(&delta, true).expect("known");
    assert!(!mapped.spawned);
    assert_eq!(mapped.run_id, "t-wf");
}

#[test]
fn air_usage_and_empty_description() {
    let mut delta = air("workflow", true);
    delta.description = Some(String::new());
    delta.summary = None;
    delta.usage = Some(AsyncTaskUsage { tool_uses: 3, duration_ms: 1500 });
    let mapped = adapt_air_workflow(&delta, false).expect("mapped");
    assert_eq!(mapped.objective, None);
    assert_eq!(mapped.last_event.as_deref(), Some("Grep"));
    assert_eq!(mapped.agents_used, Some(3));
    assert_eq!(mapped.elapsed_ms, Some(1500));
}

fn agent(state: &str) -> WorkflowAgent {
    WorkflowAgent {
        agent_id: "a".into(),
        label: "a".into(),
        phase: None,
        state: state.into(),
        summary: None,
        tokens_used: None,
        duration_ms: None,
    }
}

#[test]
fn agent_counts_take_the_larger_running_figure() {
    let list = vec![agent("done"), agent("running"), agent("failed"), agent("queued")];
    assert_eq!(agent_counts(Some(&list), 0), (1, 2));
    assert_eq!(agent_counts(Some(&list), 5), (1, 5));
    assert_eq!(agent_counts(None, 3), (0, 3));
}

#[test]
fn file_changes_are_collected_once_per_path() {
    let edit = ToolCallState {
        kind: ToolKind::Edit,
        locations: parse_json(r#"[{"path": " src\\a.rs "}, {"path": "src/a.rs"}]"#),
        input: parse_json(r#"{"file_path": "src/b.rs", "filePath": ""}"#),
    };
    let read = ToolCallState {
        kind: ToolKind::Read,
        locations: parse_json(r#"[{"path": "src/c.rs"}]"#),
        input: None,
    };
    let delete = ToolCallState {
        kind: ToolKind::Delete,
        locations: None,
        input: parse_json(r#"{"target_file": "src/b.rs", "targetFile": "src/d.rs"}"#),
    };
    assert_eq!(
        paths_from_tool_call(&edit),
        vec!["src/a.rs".to_string(), "src/b.rs".to_string()]
    );
    let changes = collect_file_changes_from_tools(&vec![
        ("call_3".to_string(), delete),
        ("call_2".to_string(), read),
        ("call_1".to_string(), edit),
    ]);
    let got: Vec<(String, FileChangeOp)> =
        changes.into_iter().map(|c| (c.path, c.operation)).collect();
    assert_eq!(
        got,
        vec![
            ("src/a.rs".to_string(), FileChangeOp::Edit),
            ("src/b.rs".to_string(), FileChangeOp::Edit),
            ("src/d.rs".to_string(), FileChangeOp::Delete),
        ]
    );
    assert_eq!(op_from_kind(&ToolKind::Move), Some(FileChangeOp::Move));
    assert_eq!(op_from_kind(&ToolKind::Search), None);
    let mut paths = Vec::new();
    push_path("  ", &mut paths);
    push_path("a\\b", &mut paths);
    push_path("a/b", &mut paths);
    assert_eq!(paths, vec!["a/b".to_string()]);
}

#[test]
fn file_changes_follow_call_id_order() {
    let delete_a = ToolCallState {
        kind: ToolKind::Delete,
        locations: parse_json(r#"[{"path": "a.rs"}]"#),
        input: None,
    };
    let edit_a = ToolCallState {
        kind: ToolKind::Edit,
        locations: parse_json(r#"[{"path": "a.rs"}, {"path": "b.rs"}]"#),
        input: None,
    };
    let changes = collect_file_changes_from_tools(&vec![
        ("tool-b".to_string(), delete_a),
        ("tool-a".to_string(), edit_a),
    ]);
    let got: Vec<(String, FileChangeOp)> =
        changes.into_iter().map(|c| (c.path, c.operation)).collect();
    assert_eq!(
        got,
        vec![
            ("a.rs".to_string(), FileChangeOp::Edit),
            ("b.rs".to_string(), FileChangeOp::Edit),
        ]
    );
    assert!(collect_file_changes_from_tools(&Vec::new()).is_empty());
}

#[test]
fn call_ids_compare_as_strings_do() {
    assert!(key_less("call_1", "call_2"));
    assert!(!key_less("call_2", "call_10"));
    assert!(key_less("ab", "abc"));
    assert!(!key_less("abc", "abc"));
    assert!(key_less("Z", "a"));
    assert!(key_less("z", "é"));
}
