use codeg_core::context::hydrate::{
    chunk_text, hydrate_store, prompt_text, EntryKind, HydrateError, TranscriptEntry,
};
use codeg_core::context::store::{AssistantPart, ContextStore, ExecutionFact};
use codeg_core::context::transcript::{
    agent_message_chunk, attach_native_meta, compact_update_payload, decode_native_meta,
    extract_native_meta, native_meta_json, tool_call_payload, tool_call_update_payload,
    CompactRecord, ModelCommit, NativeMeta, NativeMetaError, OutputLocator, ToolOutcome, ToolPhase,
};
use codeg_core::json::{parse_json, JsonValue};

fn json(text: &str) -> JsonValue {
    parse_json(text).expect("valid json")
}

fn entry(t: u64, k: EntryKind, p: JsonValue) -> TranscriptEntry {
    TranscriptEntry { t, k, p }
}

fn prompt(t: u64, text: &str) -> TranscriptEntry {
    let body = format!(r#"[{{"type":"text","text":"{}"}}]"#, text);
    entry(t, EntryKind::Prompt, json(&body))
}

fn native_tool(id: &str, name: &str, phase: ToolPhase, outcome: Option<ToolOutcome>) -> NativeMeta {
    let mut meta = NativeMeta::v1();
    meta.turn_id = Some("s1:1".into());
    meta.tool_call_id = Some(id.into());
    meta.function_name = Some(name.into());
    meta.raw_input = Some(json(&format!(r#"{{"text":"{}"}}"#, id)));
    meta.phase = Some(phase);
    meta.outcome = outcome;
    meta.executed = match outcome {
        Some(ToolOutcome::Success) => Some(true),
        Some(ToolOutcome::Cancelled) | Some(ToolOutcome::Rejected) => Some(false),
        _ => None,
    };
    meta.model_message_id = Some("msg-1".into());
    meta
}

fn member<'a>(v: &'a JsonValue, key: &str) -> &'a JsonValue {
    v.get(key).expect("member")
}

fn text_of(v: &JsonValue) -> &str {
    v.as_str().expect("string").as_str()
}

#[test]
fn native_namespace_does_not_clobber_sibling_meta() {
    let payload = json(
        r#"{"sessionUpdate":"tool_call","toolCallId":"c1","_meta":{"mcp":{"keep":true}}}"#,
    );
    let mut native = NativeMeta::v1();
    native.tool_call_id = Some("c1".into());
    native.function_name = Some("echo".into());
    let out = attach_native_meta(payload, &native);
    let keep = member(member(member(&out, "_meta"), "mcp"), "keep");
    assert!(matches!(keep, JsonValue::Bool(true)));
    let parsed = extract_native_meta(&out).unwrap().unwrap();
    assert_eq!(parsed.function_name.as_deref(), Some("echo"));
}

#[test]
fn unknown_native_version_is_an_error() {
    let payload = json(
        r#"{"sessionUpdate":"agent_message_chunk","content":{"type":"text","text":""},"_meta":{"codeg_native":{"v":2,"turn_id":"t1"}}}"#,
    );
    assert!(matches!(
        extract_native_meta(&payload),
        Err(NativeMetaError::UnsupportedVersion(2))
    ));
}

#[test]
fn compact_meta_round_trips_without_clobbering_turns() {
    let record = CompactRecord {
        level: 2,
        through_turn: "s:3".into(),
        summary: "folded".into(),
        created_at_ms: 9,
    };
    let payload = compact_update_payload(&record);
    assert_eq!(text_of(member(member(&payload, "content"), "text")), "");
    let parsed = extract_native_meta(&payload).unwrap().unwrap();
    assert_eq!(parsed.compact.as_ref().unwrap().level, 2);
    assert_eq!(parsed.compact.unwrap().summary, "folded");
}

#[test]
fn empty_commit_marker_round_trips() {
    let mut native = NativeMeta::v1();
    native.turn_id = Some("s:1".into());
    native.model_commit = Some(ModelCommit {
        batch_id: "b1".into(),
        parts: vec!["p0".into()],
        call_ids: vec!["c1".into()],
    });
    let payload = agent_message_chunk("", &native);
    assert_eq!(text_of(member(member(&payload, "content"), "text")), "");
    let parsed = extract_native_meta(&payload).unwrap().unwrap();
    assert_eq!(parsed.model_commit.unwrap().call_ids, vec!["c1".to_string()]);
}

#[test]
fn every_field_of_a_record_reads_back() {
    let mut native = NativeMeta::v1();
    native.turn_id = Some("s:1".into());
    native.model_message_id = Some("m".into());
    native.part_index = Some(3);
    native.batch_id = Some("b".into());
    native.tool_call_id = Some("c".into());
    native.function_name = Some("f".into());
    native.raw_input = Some(json(r#"{"a":[1,"x",false]}"#));
    native.phase = Some(ToolPhase::Started);
    native.outcome = Some(ToolOutcome::Timeout);
    native.executed = Some(true);
    native.reason = Some("r".into());
    native.model_presentation = Some("p".into());
    native.truncated = Some(false);
    native.output_locator = Some(OutputLocator { path: Some("/x".into()), line: Some(7) });
    native.mcp_server_key = Some("k".into());
    native.mcp_remote_name = Some("n".into());
    let doc = native_meta_json(&native);
    let back = decode_native_meta(&doc).expect("well formed");
    assert_eq!(back.part_index, Some(3));
    assert_eq!(back.phase, Some(ToolPhase::Started));
    assert_eq!(back.outcome, Some(ToolOutcome::Timeout));
    assert_eq!(back.executed, Some(true));
    assert_eq!(back.truncated, Some(false));
    assert_eq!(back.output_locator.as_ref().unwrap().line, Some(7));
    assert_eq!(back.output_locator.unwrap().path.as_deref(), Some("/x"));
    assert_eq!(back.mcp_remote_name.as_deref(), Some("n"));
    assert!(matches!(back.raw_input, Some(JsonValue::Object(_))));
    assert!(doc.get("compact").is_none());
}

#[test]
fn record_with_wrong_member_type_is_malformed() {
    let payload = json(r#"{"_meta":{"codeg_native":{"v":1,"phase":"done"}}}"#);
    assert_eq!(extract_native_meta(&payload).unwrap_err(), NativeMetaError::Malformed);
    let payload = json(r#"{"_meta":{"codeg_native":{"turn_id":"t"}}}"#);
    assert_eq!(extract_native_meta(&payload).unwrap_err(), NativeMetaError::Malformed);
    let payload = json(r#"{"_meta":{"codeg_native":{"v":1,"truncated":"yes"}}}"#);
    assert_eq!(extract_native_meta(&payload).unwrap_err(), NativeMetaError::Malformed);
    let payload = json(r#"{"_meta":{"codeg_native":{"v":1,"model_commit":{"parts":[]}}}}"#);
    assert_eq!(extract_native_meta(&payload).unwrap_err(), NativeMetaError::Malformed);
}

#[test]
fn null_members_read_as_absent_and_unknown_members_are_ignored() {
    let payload = json(r#"{"_meta":{"codeg_native":{"v":1,"turn_id":null,"extra":[1,2]}}}"#);
    let meta = extract_native_meta(&payload).unwrap().unwrap();
    assert_eq!(meta.v, 1);
    assert!(meta.turn_id.is_none());
}

#[test]
fn payload_without_meta_has_no_record() {
    let payload = json(r#"{"sessionUpdate":"usage_update"}"#);
    assert!(extract_native_meta(&payload).unwrap().is_none());
    let payload = json(r#"{"_meta":{"mcp":{}}}"#);
    assert!(extract_native_meta(&payload).unwrap().is_none());
}

#[test]
fn non_object_meta_is_replaced() {
    let payload = json(r#"{"sessionUpdate":"x","_meta":5}"#);
    let out = attach_native_meta(payload, &NativeMeta::v1());
    let v = member(member(member(&out, "_meta"), "codeg_native"), "v");
    assert_eq!(v.as_u64(), Some(1));
}

#[test]
fn metadata_error_messages() {
    assert_eq!(NativeMetaError::Malformed.message(), "malformed codeg_native metadata");
    assert_eq!(
        NativeMetaError::UnsupportedVersion(2).message(),
        "unsupported codeg_native metadata version 2"
    );
}

#[test]
fn update_payload_carries_status_and_id() {
    let mut native = NativeMeta::v1();
    native.phase = Some(ToolPhase::Terminal);
    let p = tool_call_update_payload("c9", "completed", &native);
    assert_eq!(text_of(member(&p, "sessionUpdate")), "tool_call_update");
    assert_eq!(text_of(member(&p, "toolCallId")), "c9");
    assert_eq!(text_of(member(&p, "status")), "completed");
}

#[test]
fn prompt_text_joins_item_texts_with_newlines() {
    let p = json(r#"[{"type":"text","text":"a"},{"type":"image"},{"type":"text","text":"b"}]"#);
    assert_eq!(prompt_text(&p), "a\nb");
    assert_eq!(prompt_text(&json(r#"{"text":"solo"}"#)), "solo");
    assert_eq!(prompt_text(&json(r#"{"other":1}"#)), "");
    assert_eq!(chunk_text(&json(r#"{"content":{"text":"t"}}"#)), Some("t".to_string()));
    assert_eq!(chunk_text(&json(r#"{"content":"t"}"#)), None);
}

fn hydrate_fixture_two_calls(a_outcome: ToolOutcome, b_outcome: Option<ToolOutcome>) -> ContextStore {
    let a_start = native_tool("call_a", "write_mem", ToolPhase::Started, None);
    let mut a_term = native_tool("call_a", "write_mem", ToolPhase::Terminal, Some(a_outcome));
    a_term.model_presentation = Some("wrote A".into());
    let b_pending = native_tool("call_b", "write_mem", ToolPhase::Pending, b_outcome);
    let mut commit = NativeMeta::v1();
    commit.turn_id = Some("s1:1".into());
    commit.model_message_id = Some("msg-1".into());
    commit.model_commit = Some(ModelCommit {
        batch_id: "batch-1".into(),
        parts: vec!["t0".into(), "cA".into(), "cB".into()],
        call_ids: vec!["call_a".into(), "call_b".into()],
    });
    let mut chunk_meta = NativeMeta::v1();
    chunk_meta.turn_id = Some("s1:1".into());
    chunk_meta.model_message_id = Some("msg-1".into());
    chunk_meta.part_index = Some(0);
    let entries = vec![
        prompt(1, "do A then B"),
        entry(2, EntryKind::Update, agent_message_chunk("working", &chunk_meta)),
        entry(
            3,
            EntryKind::Update,
            tool_call_payload("call_a", "Write memory", "pending", &json(r#"{"text":"A"}"#), &a_start),
        ),
        entry(4, EntryKind::Update, tool_call_update_payload("call_a", "completed", &a_term)),
        entry(
            5,
            EntryKind::Update,
            tool_call_payload("call_b", "Write memory", "pending", &json(r#"{"text":"B"}"#), &b_pending),
        ),
        entry(6, EntryKind::Update, agent_message_chunk("", &commit)),
    ];
    hydrate_store("s1", &entries).expect("hydrate")
}

#[test]
fn groups_two_calls_of_one_model_message_and_keeps_function_names() {
    let mut store = hydrate_fixture_two_calls(ToolOutcome::Success, None);
    assert_eq!(store.turns().len(), 1);
    let asst = store.turns()[0].assistant.as_ref().unwrap();
    assert!(asst.committed);
    assert_eq!(asst.model_message_id.as_deref(), Some("msg-1"));
    let names: Vec<_> = asst
        .parts
        .iter()
        .filter_map(|p| match p {
            AssistantPart::ToolCall { name, .. } => Some(name.as_str()),
            _ => None,
        })
        .collect();
    assert_eq!(names, vec!["write_mem", "write_mem"]);
    assert_eq!(store.fact("call_a").unwrap().outcome, Some(ToolOutcome::Success));
    store.settle_cancel("s1:1");
    assert_eq!(store.fact("call_a").unwrap().outcome, Some(ToolOutcome::Success));
    assert_eq!(store.fact("call_b").unwrap().outcome, Some(ToolOutcome::Cancelled));
    assert!(store.auto_replay_ids().is_empty());
}

#[test]
fn started_without_terminal_hydrates_unknown_and_is_not_replayed() {
    let mut start = native_tool("call_u", "write_mem", ToolPhase::Started, None);
    start.model_commit = Some(ModelCommit {
        batch_id: "b".into(),
        parts: vec!["cU".into()],
        call_ids: vec!["call_u".into()],
    });
    let entries = vec![
        prompt(1, "write"),
        entry(
            2,
            EntryKind::Update,
            tool_call_payload("call_u", "Write", "in_progress", &json("{}"), &start),
        ),
    ];
    let store = hydrate_store("s1", &entries).expect("hydrate");
    assert_eq!(store.fact("call_u").unwrap().outcome, Some(ToolOutcome::Unknown));
    assert!(store.auto_replay_ids().is_empty());
}

#[test]
fn unknown_native_version_fails_closed() {
    let mut meta = NativeMeta::default();
    meta.v = 2;
    meta.turn_id = Some("s:1".into());
    let payload = attach_native_meta(
        json(r#"{"sessionUpdate":"agent_message_chunk","content":{"type":"text","text":"hi"}}"#),
        &meta,
    );
    let entries = vec![prompt(1, "hi"), entry(2, EntryKind::Update, payload)];
    let err = match hydrate_store("s1", &entries) {
        Err(e) => e,
        Ok(_) => panic!("must fail"),
    };
    match err {
        HydrateError::LoadFailed { message, .. } => {
            assert!(message.contains("unsupported"), "{message}");
        }
    }
}

#[test]
fn tool_call_without_native_meta_fails() {
    let entries = vec![
        prompt(1, "hi"),
        entry(
            2,
            EntryKind::Update,
            json(r#"{"sessionUpdate":"tool_call","toolCallId":"c1","title":"Write memory"}"#),
        ),
    ];
    assert!(hydrate_store("s1", &entries).is_err());
}

#[test]
fn rejected_and_error_outcomes_stay_failed_not_success() {
    let mut rejected = native_tool("call_r", "write_mem", ToolPhase::Terminal, Some(ToolOutcome::Rejected));
    rejected.executed = Some(false);
    let mut errored = native_tool("call_e", "write_mem", ToolPhase::Terminal, Some(ToolOutcome::Error));
    errored.reason = Some("file does not exist".into());
    errored.model_presentation = Some("file does not exist".into());
    let mut commit = NativeMeta::v1();
    commit.model_commit = Some(ModelCommit {
        batch_id: "b".into(),
        parts: vec![],
        call_ids: vec!["call_r".into(), "call_e".into()],
    });
    let entries = vec![
        prompt(1, "try"),
        entry(2, EntryKind::Update, tool_call_payload("call_r", "Write", "failed", &json("{}"), &rejected)),
        entry(3, EntryKind::Update, tool_call_payload("call_e", "Write", "failed", &json("{}"), &errored)),
        entry(4, EntryKind::Update, agent_message_chunk("", &commit)),
    ];
    let store = hydrate_store("s1", &entries).expect("hydrate");
    assert_eq!(store.fact("call_r").unwrap().outcome, Some(ToolOutcome::Rejected));
    assert_eq!(store.fact("call_e").unwrap().outcome, Some(ToolOutcome::Error));
}

#[test]
fn text_and_tools_interleave_in_one_assistant_message() {
    let mut text_meta = NativeMeta::v1();
    text_meta.model_message_id = Some("msg".into());
    text_meta.part_index = Some(0);
    let call = native_tool("call_a", "echo", ToolPhase::Terminal, Some(ToolOutcome::Success));
    let mut after = NativeMeta::v1();
    after.model_message_id = Some("msg".into());
    after.part_index = Some(2);
    after.model_commit = Some(ModelCommit {
        batch_id: "b".into(),
        parts: vec!["t0".into(), "cA".into(), "t2".into()],
        call_ids: vec!["call_a".into()],
    });
    let entries = vec![
        prompt(1, "mix"),
        entry(2, EntryKind::Update, agent_message_chunk("before ", &text_meta)),
        entry(3, EntryKind::Update, tool_call_payload("call_a", "echo", "completed", &json("{}"), &call)),
        entry(4, EntryKind::Update, agent_message_chunk("after", &after)),
    ];
    let store = hydrate_store("s1", &entries).expect("hydrate");
    let parts = &store.turns()[0].assistant.as_ref().unwrap().parts;
    assert!(matches!(&parts[0], AssistantPart::Text(t) if t == "before "));
    assert!(matches!(&parts[1], AssistantPart::ToolCall { id, .. } if id == "call_a"));
    assert!(matches!(&parts[2], AssistantPart::Text(t) if t == "after"));
}

#[test]
fn hydrate_reuses_l2_compact_record_and_keeps_original_turns() {
    let compact = CompactRecord {
        level: 2,
        through_turn: "s1:1".into(),
        summary: "L2-RESUME-SUMMARY".into(),
        created_at_ms: 1,
    };
    let entries = vec![
        prompt(1, "first"),
        entry(2, EntryKind::Update, compact_update_payload(&compact)),
        prompt(3, "second"),
    ];
    let store = hydrate_store("s1", &entries).expect("hydrate");
    assert_eq!(store.turns().len(), 2, "original turns stay");
    let rec = store.compact().expect("compact");
    assert_eq!(rec.level, 2);
    assert_eq!(rec.summary, "L2-RESUME-SUMMARY");
    assert_eq!(rec.through_turn, "s1:1");
}

#[test]
fn turn_ids_count_prompts_and_turn_end_closes_the_message() {
    let entries = vec![
        prompt(1, "one"),
        entry(2, EntryKind::Update, json(r#"{"sessionUpdate":"agent_message_chunk","content":{"text":"reply"}}"#)),
        entry(3, EntryKind::TurnEnd, JsonValue::Null),
        prompt(4, "two"),
    ];
    let store = hydrate_store("s9", &entries).expect("hydrate");
    assert_eq!(store.turns().len(), 2);
    assert_eq!(store.turns()[0].turn_id, "s9:1");
    assert_eq!(store.turns()[1].turn_id, "s9:2");
    assert_eq!(store.turns()[1].user_text, "two");
    let first = store.turns()[0].assistant.as_ref().expect("closed message");
    assert!(!first.committed);
    assert!(matches!(&first.parts[0], AssistantPart::Text(t) if t == "reply"));
    assert!(store.turns()[1].assistant.is_none());
}

#[test]
fn tool_call_needs_name_and_turn() {
    let mut no_name = native_tool("c", "n", ToolPhase::Pending, None);
    no_name.function_name = None;
    let entries = vec![
        prompt(1, "x"),
        entry(2, EntryKind::Update, tool_call_payload("c", "T", "pending", &json("{}"), &no_name)),
    ];
    match hydrate_store("s1", &entries) {
        Err(HydrateError::LoadFailed { message, code, session_id }) => {
            assert_eq!(message, "tool call missing function_name; refusing to infer from title");
            assert_eq!(code, "session_unavailable");
            assert_eq!(session_id, "s1");
        }
        Ok(_) => panic!("must fail"),
    }
    let mut no_turn = native_tool("c", "n", ToolPhase::Pending, None);
    no_turn.turn_id = None;
    let entries = vec![entry(1, EntryKind::Update, tool_call_payload("c", "T", "pending", &json("{}"), &no_turn))];
    match hydrate_store("s1", &entries) {
        Err(HydrateError::LoadFailed { message, .. }) => {
            assert_eq!(message, "tool call is missing a model message boundary");
        }
        Ok(_) => panic!("must fail"),
    }
}

#[test]
fn pending_call_without_terminal_record_is_cancelled_at_load() {
    let pending = native_tool("call_p", "write_mem", ToolPhase::Pending, None);
    let entries = vec![
        prompt(1, "x"),
        entry(2, EntryKind::Update, tool_call_payload("call_p", "W", "pending", &json("{}"), &pending)),
    ];
    let store = hydrate_store("s1", &entries).expect("hydrate");
    let f = store.fact("call_p").unwrap();
    assert_eq!(f.outcome, Some(ToolOutcome::Cancelled));
    assert_eq!(f.phase, ToolPhase::Terminal);
    assert_eq!(f.executed, Some(false));
    assert_eq!(f.reason.as_deref(), Some("never started"));
    assert_eq!(
        f.model_presentation.as_deref(),
        Some("tool `write_mem` was cancelled before execution")
    );
}

#[test]
fn fact_record_reads_back_as_the_same_fact() {
    let mut fact = ExecutionFact::pending(
        "s1:1".to_string(),
        "call_x".to_string(),
        "read_file".to_string(),
        json(r#"{"path":"a.txt"}"#),
    );
    fact.phase = ToolPhase::Terminal;
    fact.outcome = Some(ToolOutcome::Success);
    fact.executed = Some(true);
    fact.model_presentation = Some("contents".to_string());
    fact.truncated = true;
    fact.output_locator =
        Some(OutputLocator { path: Some("spill/x.txt".to_string()), line: Some(3) });
    let meta = fact.native_meta();
    assert_eq!(meta.v, 1);
    assert_eq!(meta.turn_id.as_deref(), Some("s1:1"));
    assert_eq!(meta.truncated, Some(true));
    let entries = vec![
        prompt(1, "read it"),
        entry(
            2,
            EntryKind::Update,
            tool_call_payload("call_x", "Read file", "completed", &json(r#"{"path":"other"}"#), &meta),
        ),
    ];
    let store = hydrate_store("s1", &entries).expect("hydrate");
    let back = store.fact("call_x").expect("fact");
    assert_eq!(back.tool_call_id, fact.tool_call_id);
    assert_eq!(back.function_name, fact.function_name);
    assert_eq!(back.turn_id, fact.turn_id);
    assert_eq!(format!("{:?}", back.raw_input), format!("{:?}", fact.raw_input));
    assert_eq!(back.phase, fact.phase);
    assert_eq!(back.outcome, fact.outcome);
    assert_eq!(back.executed, fact.executed);
    assert_eq!(back.model_presentation, fact.model_presentation);
    assert_eq!(back.truncated, fact.truncated);
    assert_eq!(format!("{:?}", back.output_locator), format!("{:?}", fact.output_locator));
    assert_eq!(back.reason, fact.reason);
}

#[test]
fn negative_and_fractional_numbers_parse_as_their_text() {
    let doc = json(r#"{"offset":-1,"ratio":0.5,"count":7}"#);
    assert!(matches!(member(&doc, "count"), JsonValue::Number(7)));
    assert!(matches!(member(&doc, "offset"), JsonValue::OtherNumber(t) if t == "-1"));
    assert!(matches!(member(&doc, "ratio"), JsonValue::OtherNumber(t) if t == "0.5"));
}

#[test]
fn hydrated_raw_input_keeps_negative_and_fractional_numbers() {
    let mut start = native_tool("call_n", "seek", ToolPhase::Started, None);
    start.raw_input = None;
    let raw = json(r#"{"offset":-1,"ratio":0.5}"#);
    let entries = vec![
        prompt(1, "seek"),
        entry(3, EntryKind::Update, tool_call_payload("call_n", "Seek", "pending", &raw, &start)),
    ];
    let store = hydrate_store("s1", &entries).expect("hydrate");
    let fact = store.fact("call_n").expect("fact");
    assert_eq!(format!("{:?}", fact.raw_input), format!("{:?}", raw));
    assert!(matches!(member(&fact.raw_input, "offset"), JsonValue::OtherNumber(t) if t == "-1"));
    assert!(matches!(member(&fact.raw_input, "ratio"), JsonValue::OtherNumber(t) if t == "0.5"));
}
