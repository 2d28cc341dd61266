use codeg_core::context::hydrate::{EntryKind, HydrateError, TranscriptEntry};
use codeg_core::context::migrate::{migrate_transcript_entries, ChatMessage};
use codeg_core::context::store::AssistantPart;
use codeg_core::context::transcript::{
    agent_message_chunk, attach_native_meta, compact_update_payload, tool_call_payload,
    tool_call_update_payload, CompactRecord, ModelCommit, NativeMeta, ToolOutcome, ToolPhase,
};
use codeg_core::json::{parse_json, JsonValue};

fn json(text: &str) -> JsonValue {
    parse_json(text).expect("valid json")
}

fn prompt(text: &str) -> TranscriptEntry {
    TranscriptEntry {
        t: 1,
        k: EntryKind::Prompt,
        p: json(&format!(r#"[{{"type":"text","text":"{}"}}]"#, text)),
    }
}

fn text_chunk(text: &str) -> TranscriptEntry {
    TranscriptEntry { t: 1, k: EntryKind::Update, p: agent_message_chunk(text, &NativeMeta::v1()) }
}

fn commit(batch_id: &str, call_ids: &[&str], model_message_id: Option<&str>) -> TranscriptEntry {
    let mut meta = NativeMeta::v1();
    meta.model_message_id = model_message_id.map(str::to_string);
    meta.model_commit = Some(ModelCommit {
        batch_id: batch_id.into(),
        parts: call_ids.iter().map(|id| (*id).to_string()).collect(),
        call_ids: call_ids.iter().map(|id| (*id).to_string()).collect(),
    });
    TranscriptEntry { t: 1, k: EntryKind::Update, p: agent_message_chunk("", &meta) }
}

fn native_tool(
    id: &str,
    name: &str,
    phase: ToolPhase,
    outcome: Option<ToolOutcome>,
    input: JsonValue,
) -> NativeMeta {
    let mut meta = NativeMeta::v1();
    meta.turn_id = Some("s1:1".into());
    meta.tool_call_id = Some(id.into());
    meta.function_name = Some(name.into());
    meta.raw_input = Some(input);
    meta.phase = Some(phase);
    meta.outcome = outcome;
    meta.executed = match outcome {
        Some(ToolOutcome::Success) => Some(true),
        Some(ToolOutcome::Cancelled) | Some(ToolOutcome::Rejected) => Some(false),
        _ => None,
    };
    meta
}

fn tool_started(id: &str, name: &str, title: &str, input: &str) -> TranscriptEntry {
    let meta = native_tool(id, name, ToolPhase::Started, None, json(input));
    TranscriptEntry {
        t: 1,
        k: EntryKind::Update,
        p: tool_call_payload(id, title, "pending", &json(input), &meta),
    }
}

fn tool_terminal(
    id: &str,
    name: &str,
    presentation: &str,
    outcome: ToolOutcome,
    input: &str,
) -> TranscriptEntry {
    let mut meta = native_tool(id, name, ToolPhase::Terminal, Some(outcome), json(input));
    meta.model_presentation = Some(presentation.into());
    TranscriptEntry { t: 1, k: EntryKind::Update, p: tool_call_update_payload(id, "completed", &meta) }
}

fn assistant_calls(message: &ChatMessage) -> Vec<(String, String, String)> {
    let ChatMessage::Assistant { parts, .. } = message else {
        return Vec::new();
    };
    parts
        .iter()
        .filter_map(|part| match part {
            AssistantPart::ToolCall { id, name, args } => {
                Some((id.clone(), name.clone(), format!("{args:?}")))
            }
            _ => None,
        })
        .collect()
}

fn assistant_text(message: &ChatMessage) -> String {
    let ChatMessage::Assistant { parts, .. } = message else {
        return String::new();
    };
    parts
        .iter()
        .filter_map(|part| match part {
            AssistantPart::Text(text) => Some(text.as_str()),
            _ => None,
        })
        .collect::<Vec<_>>()
        .join("")
}

fn tool_result_parts(message: &ChatMessage) -> Vec<(String, String, String)> {
    let ChatMessage::ToolResults { results } = message else {
        return Vec::new();
    };
    results.iter().map(|r| (r.id.clone(), r.name.clone(), r.body.clone())).collect()
}

fn user_text(message: &ChatMessage) -> Option<&str> {
    match message {
        ChatMessage::User { text } => Some(text.as_str()),
        _ => None,
    }
}

fn is_assistant_tools(message: &ChatMessage) -> bool {
    !assistant_calls(message).is_empty()
}

fn is_tool_results(message: &ChatMessage) -> bool {
    !tool_result_parts(message).is_empty()
}

#[test]
fn three_commits_2_4_3_keep_all_calls_despite_colliding_batch_id() {
    const BATCH: &str = "batch-collide";
    let round1 = ["c1", "c2"];
    let round2 = ["c3", "c4", "c5", "c6"];
    let round3 = ["c7", "c8", "c9"];
    let mut entries = vec![prompt("do the work")];
    for (text, msg_id, ids) in [
        ("round-1", "msg-1", round1.as_slice()),
        ("round-2", "msg-2", round2.as_slice()),
        ("round-3", "msg-3", round3.as_slice()),
    ] {
        entries.push(text_chunk(text));
        entries.push(commit(BATCH, ids, Some(msg_id)));
        for id in ids {
            let input = format!(r#"{{"id":"{id}"}}"#);
            entries.push(tool_started(id, "write_mem", "Write memory", &input));
            entries.push(tool_terminal(
                id,
                "write_mem",
                &format!("out-{id}"),
                ToolOutcome::Success,
                &input,
            ));
        }
    }

    let out = migrate_transcript_entries("s1", &entries).expect("migrate");
    assert!(out.complete, "warnings: {:?}", out.warnings);

    let assistant_tool_msgs: Vec<_> =
        out.messages.iter().filter(|m| is_assistant_tools(m)).collect();
    let result_msgs: Vec<_> = out.messages.iter().filter(|m| is_tool_results(m)).collect();
    assert_eq!(assistant_tool_msgs.len(), 3);
    assert_eq!(result_msgs.len(), 3);

    let expected = [round1.as_slice(), round2.as_slice(), round3.as_slice()];
    for (i, ids) in expected.into_iter().enumerate() {
        let calls = assistant_calls(assistant_tool_msgs[i]);
        let got: Vec<&str> = calls.iter().map(|(id, _, _)| id.as_str()).collect();
        assert_eq!(got, ids, "commit {i} call order");
        let results = tool_result_parts(result_msgs[i]);
        let got_results: Vec<&str> = results.iter().map(|(id, _, _)| id.as_str()).collect();
        assert_eq!(got_results, ids, "commit {i} result order");
        assert_eq!(results.len(), ids.len());
    }

    let all_ids: Vec<_> = assistant_tool_msgs
        .iter()
        .flat_map(|m| assistant_calls(m))
        .map(|(id, _, _)| id)
        .collect();
    assert_eq!(all_ids.len(), 9);

    match &out.messages[1] {
        ChatMessage::Assistant { id, .. } => assert_eq!(id.as_deref(), Some("msg-1")),
        other => panic!("expected assistant, got {other:?}"),
    }
    assert_eq!(user_text(&out.messages[0]), Some("do the work"));
}

#[test]
fn function_names_come_from_native_meta_not_titles() {
    let input = r#"{"path":"a.txt"}"#;
    let entries = vec![
        prompt("write"),
        commit("batch-collide", &["call_a"], Some("msg-1")),
        tool_started("call_a", "write_mem", "Write memory", input),
        tool_terminal("call_a", "write_mem", "wrote A", ToolOutcome::Success, input),
    ];
    let out = migrate_transcript_entries("s1", &entries).expect("migrate");
    let calls = assistant_calls(&out.messages[1]);
    assert_eq!(calls.len(), 1);
    assert_eq!(calls[0].1, "write_mem");
    assert_eq!(calls[0].2, format!("{:?}", json(input)));
    assert_ne!(calls[0].1, "Write memory");
    let results = tool_result_parts(&out.messages[2]);
    assert_eq!(results[0].1, "write_mem");
}

#[test]
fn duplicate_terminal_updates_collapse_to_one_final_result() {
    let input = r#"{"text":"A"}"#;
    let first = tool_terminal("call_a", "echo", "first", ToolOutcome::Success, input);
    let second = tool_terminal("call_a", "echo", "second", ToolOutcome::Success, input);
    let entries = vec![
        prompt("echo"),
        commit("b", &["call_a"], None),
        tool_started("call_a", "echo", "Echo", input),
        first,
        second,
    ];
    let out = migrate_transcript_entries("s1", &entries).expect("migrate");
    let result_msgs: Vec<_> = out.messages.iter().filter(|m| is_tool_results(m)).collect();
    assert_eq!(result_msgs.len(), 1);
    let parts = tool_result_parts(result_msgs[0]);
    assert_eq!(parts.len(), 1);
    assert_eq!(parts[0].2, "second");
}

#[test]
fn missing_native_meta_on_tool_call_fails_closed() {
    let entries = vec![
        prompt("hi"),
        TranscriptEntry {
            t: 2,
            k: EntryKind::Update,
            p: json(r#"{"sessionUpdate":"tool_call","toolCallId":"c1","title":"Write memory"}"#),
        },
    ];
    let err = migrate_transcript_entries("s1", &entries).unwrap_err();
    match err {
        HydrateError::LoadFailed { message, .. } => {
            assert!(
                message.contains("codeg_native") || message.contains("function_name"),
                "{message}"
            );
        }
    }
}

#[test]
fn cancelled_and_unknown_facts_are_honest_tool_results() {
    let mut cancelled =
        native_tool("call_c", "bash", ToolPhase::Terminal, Some(ToolOutcome::Cancelled), json("{}"));
    cancelled.model_presentation = Some("ok".into());
    let mut unknown =
        native_tool("call_u", "bash", ToolPhase::Terminal, Some(ToolOutcome::Unknown), json("{}"));
    unknown.model_presentation = Some("ok".into());
    let entries = vec![
        prompt("try"),
        commit("b", &["call_c", "call_u"], None),
        TranscriptEntry {
            t: 2,
            k: EntryKind::Update,
            p: tool_call_payload("call_c", "Run", "failed", &json("{}"), &cancelled),
        },
        TranscriptEntry {
            t: 3,
            k: EntryKind::Update,
            p: tool_call_update_payload("call_u", "failed", &unknown),
        },
    ];
    let out = migrate_transcript_entries("s1", &entries).expect("migrate");
    assert!(out.complete, "{:?}", out.warnings);
    let results = tool_result_parts(&out.messages[2]);
    assert_eq!(results.len(), 2);
    assert!(results[0].2.contains("cancelled"), "cancelled body: {}", results[0].2);
    assert!(
        results[1].2.contains("not replayed") || results[1].2.contains("could not be confirmed"),
        "unknown body: {}",
        results[1].2
    );
    assert_ne!(results[0].2, "ok");
    assert_ne!(results[1].2, "ok");
}

#[test]
fn prompt_and_text_only_assistant_round_trips() {
    let entries = vec![prompt("hello"), text_chunk("visible reply"), commit("b", &[], None)];
    let out = migrate_transcript_entries("s1", &entries).expect("migrate");
    assert!(out.complete, "{:?}", out.warnings);
    assert_eq!(out.messages.len(), 2);
    assert_eq!(user_text(&out.messages[0]), Some("hello"));
    assert_eq!(assistant_text(&out.messages[1]), "visible reply");
    assert!(assistant_calls(&out.messages[1]).is_empty());
    assert!(!is_tool_results(&out.messages[1]));
}

#[test]
fn old_compact_record_is_not_applied_as_a_cut() {
    let compact = CompactRecord {
        level: 2,
        through_turn: "s1:1".into(),
        summary: "L2-RESUME-SUMMARY".into(),
        created_at_ms: 1,
    };
    let entries = vec![
        prompt("first"),
        text_chunk("one"),
        commit("b1", &[], None),
        TranscriptEntry { t: 4, k: EntryKind::Update, p: compact_update_payload(&compact) },
        prompt("second"),
        text_chunk("two"),
        commit("b2", &[], None),
    ];
    let out = migrate_transcript_entries("s1", &entries).expect("migrate");
    let dumped = format!("{:?}", out.messages);
    assert!(dumped.contains("first"), "{dumped}");
    assert!(dumped.contains("second"), "{dumped}");
    assert!(
        !dumped.contains("L2-RESUME-SUMMARY"),
        "old summary must not replace recovered prefix: {dumped}"
    );
    assert!(
        out.warnings.iter().any(|w| w.code == "compact_not_applied"),
        "{:?}",
        out.warnings
    );
}

#[test]
fn commit_attached_to_tool_card_uses_subsequent_native_meta() {
    let mut commit_only = NativeMeta::v1();
    commit_only.turn_id = Some("s1:1".into());
    commit_only.model_commit = Some(ModelCommit {
        batch_id: "batch-collide".into(),
        parts: vec!["c1".into()],
        call_ids: vec!["c1".into()],
    });
    let stripped = attach_native_meta(
        json(
            r#"{"sessionUpdate":"tool_call","toolCallId":"c1","title":"Write memory","rawInput":{"path":"a.txt"}}"#,
        ),
        &commit_only,
    );
    let input = r#"{"path":"a.txt"}"#;
    let entries = vec![
        prompt("write"),
        TranscriptEntry { t: 2, k: EntryKind::Update, p: stripped },
        tool_started("c1", "write_mem", "Write memory", input),
        tool_terminal("c1", "write_mem", "wrote", ToolOutcome::Success, input),
    ];
    let out = migrate_transcript_entries("s1", &entries).expect("migrate");
    assert!(out.complete, "{:?}", out.warnings);
    let calls = assistant_calls(&out.messages[1]);
    assert_eq!(calls[0].0, "c1");
    assert_eq!(calls[0].1, "write_mem");
}

#[test]
fn calls_without_facts_and_facts_without_calls_are_reported() {
    let input = r#"{"x":1}"#;
    let entries = vec![
        prompt("go"),
        commit("b", &["ghost"], None),
        tool_started("orphan", "bash", "Run", input),
    ];
    let out = migrate_transcript_entries("s1", &entries).expect("migrate");
    assert!(!out.complete);
    let codes: Vec<&str> = out.warnings.iter().map(|w| w.code).collect();
    assert_eq!(
        codes,
        vec!["incomplete_tool_chain", "missing_provider_ids", "missing_assistant_parts", "unpaired_tool_facts"]
    );
    assert_eq!(
        out.warnings[0].message,
        "model commit call_ids had no recoverable native execution metadata: ghost"
    );
    assert_eq!(
        out.warnings[3].message,
        "tool execution records were not paired with a model_commit call_id: orphan"
    );
}

#[test]
fn text_without_commit_is_recovered_with_a_warning() {
    let entries = vec![prompt("hi"), text_chunk("partial")];
    let out = migrate_transcript_entries("s1", &entries).expect("migrate");
    assert_eq!(out.messages.len(), 2);
    assert_eq!(assistant_text(&out.messages[1]), "partial");
    assert_eq!(out.warnings.len(), 1);
    assert_eq!(out.warnings[0].code, "uncommitted_assistant_text");
    assert!(out.complete);
}
