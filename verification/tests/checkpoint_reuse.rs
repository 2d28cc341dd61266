use codeg_core::context::budget::{
    check_request_budget, estimate_request_sizes, estimate_tokens_bytes, BudgetConfig, BudgetError,
};
use codeg_core::context::checkpoint::{
    indexed_on_load, labeled_user_summary, lookup, message_plain_text, new_coverage,
    plan_compaction, upsert_checkpoint, valid_summary, CheckpointRecord, CompactPlan, Lookup,
    RequestBudgetSnapshot,
};
use codeg_core::context::compact_llm::{
    annotate_history_summary, is_history_summary_message, json_array_of, sha256_hex,
    source_slice_sha256, MessageText, HISTORY_SUMMARY_ZH,
};
use codeg_core::context::compact_llm::view::{
    lookup_compact_llm, plan_compact_llm, LlmCheckpointRecord,
};
use codeg_core::context::compact_llm::CompactLlmError;
use codeg_core::context::session_memory::{
    bind_seq_excluding_pending, budget_policy_message, check_loaded_budget, covers_through,
    settle_failed_load, settle_load, tail_budget_from, LoadAction,
};

/// What rig writes for a user message with one text part.
fn user_json(text: &str) -> Vec<u8> {
    format!(
        "{{\"role\":\"user\",\"content\":[{{\"type\":\"text\",\"text\":\"{}\"}}]}}",
        text
    )
    .into_bytes()
}

fn evicted(texts: &[&str]) -> Vec<Vec<u8>> {
    texts.iter().map(|t| user_json(t)).collect()
}

fn slice_hash(items: &[Vec<u8>]) -> String {
    let mut bytes = b"[".to_vec();
    for (i, item) in items.iter().enumerate() {
        if i > 0 {
            bytes.push(b',');
        }
        bytes.extend_from_slice(item);
    }
    bytes.push(b']');
    sha256_hex(&bytes)
}

fn record(id: &str, prev: Option<&str>, covers: u64, hash: String) -> CheckpointRecord {
    CheckpointRecord {
        id: id.to_string(),
        previous_id: prev.map(str::to_string),
        conversation_id: "conv".to_string(),
        covers_through_seq: covers,
        source_prefix_sha256: hash,
        status: "committed".to_string(),
        fingerprint: "fp".to_string(),
    }
}

#[test]
fn json_array_frames_items_with_commas() {
    let items = evicted(&["a", "b", "c"]);
    let framed = json_array_of(&items, 0, 2);
    let expected = format!(
        "[{},{}]",
        String::from_utf8(items[0].clone()).unwrap(),
        String::from_utf8(items[1].clone()).unwrap()
    );
    assert_eq!(framed, expected.into_bytes());
    assert_eq!(json_array_of(&items, 1, 1), b"[]".to_vec());
    assert_eq!(source_slice_sha256(&items, 0, 3), slice_hash(&items));
    assert_ne!(source_slice_sha256(&items, 0, 3), source_slice_sha256(&items, 0, 2));
}

#[test]
fn stored_root_checkpoint_is_an_exact_hit() {
    let ev = evicted(&["one", "two"]);
    let records = vec![record("c1", None, 2, slice_hash(&ev))];
    assert_eq!(lookup(&records, &ev, None, "conv", "fp"), Lookup::Exact(0));
}

#[test]
fn lookup_ignores_other_conversations_fingerprints_and_pending_records() {
    let ev = evicted(&["one", "two"]);
    let mut other_conv = record("c1", None, 2, slice_hash(&ev));
    other_conv.conversation_id = "other".to_string();
    let mut other_fp = record("c2", None, 2, slice_hash(&ev));
    other_fp.fingerprint = "old".to_string();
    let mut pending = record("c3", None, 2, slice_hash(&ev));
    pending.status = "pending".to_string();
    let records = vec![other_conv, other_fp, pending];
    assert_eq!(lookup(&records, &ev, None, "conv", "fp"), Lookup::Miss);
}

#[test]
fn wrong_hash_does_not_verify() {
    let ev = evicted(&["one", "two"]);
    let changed = evicted(&["one", "TWO"]);
    let records = vec![record("c1", None, 2, slice_hash(&changed))];
    assert_eq!(lookup(&records, &ev, None, "conv", "fp"), Lookup::Miss);
}

#[test]
fn prefix_hit_points_at_the_rest() {
    let ev = evicted(&["one", "two", "three", "four"]);
    let records = vec![
        record("c1", None, 1, slice_hash(&ev[0..1])),
        record("c2", Some("c1"), 3, slice_hash(&ev[1..3])),
    ];
    assert_eq!(
        lookup(&records, &ev, None, "conv", "fp"),
        Lookup::Prefix { stored: 1, suffix_start: 3 }
    );
    assert_eq!(
        plan_compaction(Lookup::Prefix { stored: 1, suffix_start: 3 }, false, ev.len()),
        Ok(CompactPlan::Extend { stored: 1, from: 3 })
    );
}

#[test]
fn chain_with_a_gap_does_not_verify() {
    let ev = evicted(&["one", "two", "three"]);
    // c2 claims to continue c1 at 2, but c1 stops at 1.
    let records = vec![
        record("c1", None, 1, slice_hash(&ev[0..1])),
        record("c2", Some("missing"), 3, slice_hash(&ev[1..3])),
    ];
    assert_eq!(
        lookup(&records, &ev, None, "conv", "fp"),
        Lookup::Prefix { stored: 0, suffix_start: 1 }
    );
}

#[test]
fn cyclic_lineage_is_refused() {
    let ev = evicted(&["one", "two"]);
    let records = vec![
        record("a", Some("b"), 1, slice_hash(&ev[0..1])),
        record("b", Some("a"), 2, slice_hash(&ev[1..2])),
    ];
    assert_eq!(lookup(&records, &ev, None, "conv", "fp"), Lookup::Miss);
}

#[test]
fn carry_over_sets_the_origin() {
    let ev = evicted(&["three", "four"]);
    let carry = record("base", None, 2, "whatever".to_string());
    let records = vec![record("next", Some("base"), 4, slice_hash(&ev))];
    assert_eq!(lookup(&records, &ev, Some(&carry), "conv", "fp"), Lookup::Exact(0));
    // Without the carry-over the chain has no known predecessor.
    assert_eq!(lookup(&records, &ev, None, "conv", "fp"), Lookup::Miss);
}

#[test]
fn plan_refuses_empty_and_out_of_range() {
    assert_eq!(
        plan_compaction(Lookup::Miss, false, 0),
        Err("checkpointed compact received empty evicted prefix".to_string())
    );
    assert_eq!(
        plan_compaction(Lookup::Prefix { stored: 0, suffix_start: 5 }, false, 3),
        Err("compaction prefix suffix_start out of range".to_string())
    );
    assert_eq!(
        plan_compaction(Lookup::Prefix { stored: 2, suffix_start: 3 }, false, 3),
        Ok(CompactPlan::Reuse(2))
    );
    assert_eq!(plan_compaction(Lookup::Exact(4), true, 3), Ok(CompactPlan::Reuse(4)));
    assert_eq!(plan_compaction(Lookup::Exact(4), false, 3), Ok(CompactPlan::Fresh));
    assert_eq!(plan_compaction(Lookup::Miss, true, 3), Ok(CompactPlan::Fresh));
}

#[test]
fn labeled_summary_keeps_an_existing_label() {
    assert_eq!(labeled_user_summary("  done  "), format!("{HISTORY_SUMMARY_ZH}done"));
    assert_eq!(
        labeled_user_summary("History summary: done"),
        "History summary: done".to_string()
    );
    let once = labeled_user_summary("x");
    assert_eq!(labeled_user_summary(&once), once);
}

#[test]
fn plain_text_joins_parts_with_newlines_and_validity_needs_text() {
    let m = MessageText { from_user: true, texts: vec!["a".to_string(), "b".to_string()] };
    assert_eq!(message_plain_text(&m), "a\nb".to_string());
    assert!(valid_summary(&m));
    let blank = MessageText { from_user: true, texts: vec!["  ".to_string()] };
    assert!(!valid_summary(&blank));
    let assistant = MessageText { from_user: false, texts: vec!["a".to_string()] };
    assert!(!valid_summary(&assistant));
    assert!(!valid_summary(&MessageText { from_user: true, texts: vec![] }));
}

#[test]
fn coverage_adds_the_summarised_messages() {
    let snap = RequestBudgetSnapshot { source_last_seq: None, max_summary_tokens: Some(100) };
    assert_eq!(new_coverage(&snap, 4, 3, 50), Ok((7, 7)));
    let snap = RequestBudgetSnapshot { source_last_seq: Some(20), max_summary_tokens: None };
    assert_eq!(new_coverage(&snap, 4, 3, 5000), Ok((7, 20)));
    let snap = RequestBudgetSnapshot { source_last_seq: None, max_summary_tokens: Some(10) };
    assert_eq!(
        new_coverage(&snap, 0, 1, 11),
        Err("context_budget_exceeded: summary tokens 11 exceed max 10".to_string())
    );
}

#[test]
fn annotated_summary_message_is_recognised() {
    let text = annotate_history_summary("keep the tests green");
    let m = MessageText { from_user: true, texts: vec![text] };
    assert!(is_history_summary_message(&m));
    let plain = MessageText { from_user: true, texts: vec!["hello".to_string()] };
    assert!(!is_history_summary_message(&plain));
    let split = MessageText {
        from_user: true,
        texts: vec!["History ".to_string(), "summary: x".to_string()],
    };
    assert!(is_history_summary_message(&split));
    let from_assistant = MessageText {
        from_user: false,
        texts: vec![format!("{HISTORY_SUMMARY_ZH}x")],
    };
    assert!(!is_history_summary_message(&from_assistant));
}

#[test]
fn tail_budget_is_positive_on_a_normal_window() {
    let n = tail_budget_from(BudgetConfig::new(128_000, 4096));
    assert!(n > 1, "{n}");
}

#[test]
fn tail_budget_exact_values() {
    // input = 128000 - 4096 - 6400 = 117504; 80% = 94003; less 2048.
    assert_eq!(tail_budget_from(BudgetConfig::new(128_000, 4096)), 91_955);
    assert_eq!(tail_budget_from(BudgetConfig::new(2048, 2048)), usize::MAX / 4);
    // A tiny input budget still keeps one token.
    assert_eq!(tail_budget_from(BudgetConfig::new(4096, 2048)), 1);
}

#[test]
fn loaded_history_fails_closed_over_budget() {
    assert_eq!(check_loaded_budget(BudgetConfig::new(4096, 2048), 1024), Ok(()));
    assert_eq!(
        check_loaded_budget(BudgetConfig::new(4096, 2048), 1025),
        Err("context_budget_exceeded: estimated 1025 exceeds input budget 1024".to_string())
    );
    assert_eq!(
        check_loaded_budget(BudgetConfig::new(2048, 2048), 1),
        Err(
            "context_budget_exceeded: context_budget: window 2048 cannot fit output 2048 plus safety 1024"
                .to_string()
        )
    );
}

#[test]
fn estimate_request_counts_preamble_history_and_prompt() {
    let prompt = user_json("hello").len() as u64;
    let history = vec![user_json("prior").len() as u64, user_json("noted").len() as u64];
    let estimated = estimate_request_sizes(estimate_tokens_bytes("preamble"), &vec![], &history, prompt);
    assert!(estimated > estimate_tokens_bytes("preamble"));
    assert!(estimated > prompt);
}

#[test]
fn empty_history_prompt_that_exceeds_input_budget_is_rejected() {
    let prompt = user_json(&"x".repeat(5000)).len() as u64;
    let estimated = estimate_request_sizes(estimate_tokens_bytes("p"), &vec![], &vec![], prompt);
    let err = check_request_budget(BudgetConfig::new(4096, 2048), estimated, true).unwrap_err();
    assert!(
        matches!(
            err,
            BudgetError::WindowTooSmall { .. } | BudgetError::PromptExceedsBudget { .. }
        ),
        "{}",
        err.message()
    );
}

#[test]
fn too_small_window_cannot_fit_output_and_safety() {
    let prompt = user_json("x").len() as u64;
    let estimated = estimate_request_sizes(estimate_tokens_bytes("p"), &vec![], &vec![], prompt);
    let err = check_request_budget(BudgetConfig::new(2048, 2048), estimated, true).unwrap_err();
    assert!(matches!(err, BudgetError::WindowTooSmall { .. }), "{}", err.message());
}

#[test]
fn persisted_checkpoint_replaces_its_id_or_is_added() {
    let mut index = vec![record("c1", None, 1, "h1".to_string()), record("c2", Some("c1"), 2, "h2".to_string())];
    upsert_checkpoint(&mut index, &record("c1", None, 1, "h1-new".to_string()));
    assert_eq!(index.len(), 2);
    assert_eq!(index[0].source_prefix_sha256, "h1-new");
    assert_eq!(index[1].source_prefix_sha256, "h2");
    upsert_checkpoint(&mut index, &record("c3", Some("c2"), 3, "h3".to_string()));
    assert_eq!(index.len(), 3);
    assert_eq!(index[2].id, "c3");
}

#[test]
fn only_committed_current_records_of_the_conversation_are_indexed() {
    assert!(indexed_on_load("conv", "conv", "committed", 1));
    assert!(!indexed_on_load("conv", "other", "committed", 1));
    assert!(!indexed_on_load("conv", "conv", "pending", 1));
    assert!(!indexed_on_load("conv", "conv", "committed", 2));
}

fn llm_record(id: &str, prev: Option<&str>, epoch: u64, covers: u64, hash: String) -> LlmCheckpointRecord {
    LlmCheckpointRecord {
        id: id.to_string(),
        previous_id: prev.map(str::to_string),
        conversation_id: "conv".to_string(),
        epoch,
        covers_through_seq: covers,
        source_slice_sha256: hash,
        fingerprint: "fp".to_string(),
    }
}

#[test]
fn compact_llm_lookup_keeps_to_its_epoch() {
    let ev = evicted(&["one", "two"]);
    let records = vec![
        llm_record("old", None, 1, 2, slice_hash(&ev)),
        llm_record("new", None, 2, 2, slice_hash(&ev)),
    ];
    assert_eq!(lookup_compact_llm(&records, &ev, None, "conv", 2, "fp"), Lookup::Exact(1));
    assert_eq!(lookup_compact_llm(&records, &ev, None, "conv", 1, "fp"), Lookup::Exact(0));
    assert_eq!(lookup_compact_llm(&records, &ev, None, "conv", 3, "fp"), Lookup::Miss);
    assert_eq!(lookup_compact_llm(&records, &ev, None, "other", 2, "fp"), Lookup::Miss);
}

#[test]
fn compact_llm_plan() {
    match plan_compact_llm(Lookup::Miss, 0, false) {
        Err(CompactLlmError::Other(m)) => assert_eq!(m, "compact-llm received empty evicted prefix"),
        _ => panic!("expected refusal"),
    }
    assert!(matches!(plan_compact_llm(Lookup::Miss, 2, true), Err(CompactLlmError::Cancelled)));
    assert!(matches!(plan_compact_llm(Lookup::Exact(3), 2, false), Ok(CompactPlan::Reuse(3))));
    assert!(matches!(
        plan_compact_llm(Lookup::Prefix { stored: 1, suffix_start: 1 }, 2, false),
        Ok(CompactPlan::Extend { stored: 1, from: 1 })
    ));
    assert!(matches!(
        plan_compact_llm(Lookup::Prefix { stored: 1, suffix_start: 2 }, 2, false),
        Ok(CompactPlan::Reuse(1))
    ));
    match plan_compact_llm(Lookup::Prefix { stored: 1, suffix_start: 3 }, 2, false) {
        Err(CompactLlmError::Other(m)) => assert_eq!(m, "compact-llm prefix suffix_start out of range"),
        _ => panic!("expected refusal"),
    }
}

#[test]
fn history_bound_and_coverage_of_a_compacted_view() {
    let committed = evicted(&["a", "b", "p"]);
    assert_eq!(bind_seq_excluding_pending(&committed, &user_json("p")), 3);
    assert_eq!(bind_seq_excluding_pending(&committed, &user_json("q")), 4);
    assert_eq!(bind_seq_excluding_pending(&vec![], &user_json("q")), 1);

    let original = evicted(&["a", "b", "c", "d"]);
    let view = vec![user_json("summary"), user_json("c"), user_json("d")];
    assert_eq!(covers_through(&original, &view), Some(2));
    assert_eq!(covers_through(&original, &evicted(&["c", "d"])), Some(3));
    assert_eq!(covers_through(&original, &vec![]), Some(4));
    assert_eq!(covers_through(&vec![], &vec![]), None);
    assert_eq!(covers_through(&original, &evicted(&["x", "y"])), None);
}

#[test]
fn load_within_budget_commits_the_pending_checkpoint() {
    match settle_load(BudgetConfig::new(4096, 2048), 1024, Some("cp-1".to_string())) {
        LoadAction::Commit { pending_id } => assert_eq!(pending_id.as_deref(), Some("cp-1")),
        other => panic!("unexpected {:?}", other),
    }
    assert!(matches!(
        settle_load(BudgetConfig::new(4096, 2048), 0, None),
        LoadAction::Commit { pending_id: None }
    ));
}

#[test]
fn load_over_budget_aborts_the_pending_checkpoint_and_forgets() {
    match settle_load(BudgetConfig::new(4096, 2048), 1025, Some("cp-1".to_string())) {
        LoadAction::Fail { abort_id, forget, message } => {
            assert_eq!(abort_id.as_deref(), Some("cp-1"));
            assert!(forget);
            assert_eq!(message, "context_budget_exceeded: estimated 1025 exceeds input budget 1024");
        }
        other => panic!("unexpected {:?}", other),
    }
    match settle_load(BudgetConfig::new(2048, 2048), 1, None) {
        LoadAction::Fail { abort_id, forget, message } => {
            assert!(abort_id.is_none());
            assert!(forget);
            assert!(message.starts_with("context_budget_exceeded: context_budget: window 2048"));
        }
        other => panic!("unexpected {:?}", other),
    }
}

#[test]
fn failed_assembly_aborts_the_pending_checkpoint_and_keeps_the_view() {
    match settle_failed_load(Some("cp-2".to_string()), Some("tail too large")) {
        LoadAction::Fail { abort_id, forget, message } => {
            assert_eq!(abort_id.as_deref(), Some("cp-2"));
            assert!(!forget);
            assert_eq!(message, "context_budget_exceeded: tail too large");
        }
        other => panic!("unexpected {:?}", other),
    }
    match settle_failed_load(None, None) {
        LoadAction::Fail { abort_id, forget, message } => {
            assert!(abort_id.is_none());
            assert!(!forget);
            assert!(message.is_empty());
        }
        other => panic!("unexpected {:?}", other),
    }
}

#[test]
fn policy_messages_name_the_budget_once() {
    assert_eq!(budget_policy_message("over"), "context_budget_exceeded: over");
    assert_eq!(
        budget_policy_message("context_budget_exceeded: estimated 9"),
        "context_budget_exceeded: estimated 9"
    );
    assert_eq!(
        budget_policy_message("l2 context_budget_exceeded later"),
        "l2 context_budget_exceeded later"
    );
}
