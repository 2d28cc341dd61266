use codeg_core::context::budget::{
    check_request_budget, estimate_request_sizes, estimate_tokens_bytes, truncate_presentation,
    BudgetConfig, BudgetError, MAX_TOOL_PRESENTATION_BYTES,
};
use codeg_core::context::checkpoint::{is_checkpoint_file, strip_summary_label};
use codeg_core::context::compact::{
    annotate_history_summary as add_summary_heading, ensure_summary_lists_files, CompactFile,
};
use codeg_core::context::compact_llm::checkpoint::{is_checkpoint_json, validate_id, validate_rel_path};
use codeg_core::context::compact_llm::sandbox::{
    CompactLlmFileEntry,
    check_relative, entry_for, join_under_root, media_type_for, path_is_under_root,
    relative_to_root, SandboxLimits, SandboxManifest,
};
use codeg_core::context::compact_llm::{
    annotate_history_summary, fingerprint, is_history_summary, sha256_hex, CompactLlmConfig,
    CompactLlmError, COMPACT_LLM_ID, HISTORY_SUMMARY_ZH,
};
use codeg_core::context::hydrate::encode_session_cwd;
use codeg_core::context::message_memory::{committed_ordinals_for, finished_operation_ids, RuntimeOp, SessionMeta};
use codeg_core::context::policy::{input_budget, nth_from_end, safety_margin};
use codeg_core::context::spill::{locator_for, sanitize_call_id, spill_dir, spill_file_path, spill_notice};
use codeg_core::context::store::{CallIdentity, CallIdentityBridge, ContextStore, ExecutionFact};
use codeg_core::context::tool_prune::{distill_tool_result, hard_clear_tool_result, DistillKind};
use codeg_core::context::transcript::{acp_status_for, OutputLocator, ToolOutcome, ToolPhase};
use codeg_core::json::parse_json;

fn cfg(window: u64, output: u64) -> BudgetConfig {
    BudgetConfig::new(window, output)
}

#[test]
fn safety_margin_is_max_of_1024_and_five_percent() {
    assert_eq!(cfg(10_000, 100).safety_margin(), 1024);
    assert_eq!(cfg(128_000, 4096).safety_margin(), 6400);
}

#[test]
fn estimate_is_utf8_bytes_not_chars_div_4() {
    let text = "a".repeat(4000);
    assert_eq!(estimate_tokens_bytes(&text), 4000);
    assert_ne!(estimate_tokens_bytes(&text), 1000);
}

#[test]
fn one_megabyte_tool_output_is_truncated_before_the_gate() {
    let raw = "x".repeat(1_000_000);
    let (shown, truncated) = truncate_presentation(&raw, 50_000);
    assert!(truncated);
    assert!(shown.len() < 40_000);
    assert!(
        shown.contains("recall") || shown.contains("pass offset="),
        "truncation must tell the model how to get the rest: {shown}"
    );
    assert!(
        !shown.contains("remaining output unavailable"),
        "must not claim the rest of the output is gone: {shown}"
    );
}

#[test]
fn a_read_page_under_32kib_is_not_eaten_by_a_tight_remaining_budget() {
    let mut raw = String::from("# f.rs (lines 1-400)\n");
    raw.push_str(&"line-body\n".repeat(400));
    raw.push_str("[truncated: showing 400 lines; pass offset=401 to continue from this path]");
    assert!(raw.len() < MAX_TOOL_PRESENTATION_BYTES);
    let (shown, truncated) = truncate_presentation(&raw, 1024);
    assert!(!truncated, "32KiB page must survive a tight remaining budget");
    assert_eq!(shown, raw);
    assert!(shown.contains("pass offset=401"), "{shown}");
    assert!(!shown.contains("remaining output unavailable"), "{shown}");
}

#[test]
fn truncate_presentation_stays_on_a_char_boundary() {
    let raw = format!("a{}", "你".repeat(20_000));
    let (shown, truncated) = truncate_presentation(&raw, 1024);
    assert!(truncated);
    assert!(shown.is_char_boundary(shown.len()), "len {}", shown.len());
    assert!(!shown.contains("remaining output unavailable"), "{shown}");
}

#[test]
fn truncation_cuts_at_the_last_line_break() {
    let raw = format!("{}\n{}", "a".repeat(100), "b".repeat(40_000));
    let (shown, truncated) = truncate_presentation(&raw, 0);
    assert!(truncated);
    assert!(shown.starts_with(&"a".repeat(100)));
    assert!(shown.contains("[truncated: 40001 bytes omitted;"), "{shown}");
}

#[test]
fn budget_checks_and_estimates() {
    assert!(matches!(
        check_request_budget(cfg(2048, 2048), 10, true),
        Err(BudgetError::WindowTooSmall { .. })
    ));
    assert_eq!(
        check_request_budget(cfg(4096, 2048), 5000, true),
        Err(BudgetError::PromptExceedsBudget { budget: 1024, estimated: 5000 })
    );
    assert_eq!(
        check_request_budget(cfg(4096, 2048), 5000, false),
        Err(BudgetError::HistoryExceedsBudget { budget: 1024, estimated: 5000 })
    );
    assert_eq!(check_request_budget(cfg(128_000, 4096), 100, false), Ok(100));
    assert_eq!(estimate_request_sizes(8, &vec![10], &vec![5, 7], 3), 8 + 16 + 10 + 21 + 23 + 19);
    assert_eq!(
        BudgetError::WindowTooSmall { window: 1, max_output: 2, safety: 1024 }.message(),
        "context_budget: window 1 cannot fit output 2 plus safety 1024"
    );
    let c = cfg(1000, 10).with_compact(0, 0);
    assert_eq!(c.compact_soft_percent, 80);
    assert_eq!(cfg(1000, 10).with_compact(150, 3).compact_soft_percent, 100);
}

#[test]
fn safety_margin_matches_budget_config() {
    assert_eq!(safety_margin(10_000), 1024);
    assert_eq!(safety_margin(128_000), 6400);
    assert_eq!(input_budget(128_000, 4096).expect("budget"), 128_000 - 4096 - 6400);
}

#[test]
fn nth_from_end_picks_recent_indices() {
    assert_eq!(nth_from_end(&vec![1, 4, 9], 1), Some(9));
    assert_eq!(nth_from_end(&vec![1, 4, 9], 2), Some(4));
    assert_eq!(nth_from_end(&vec![1, 4, 9], 7), Some(1));
    assert_eq!(nth_from_end(&vec![1, 4, 9], 0), None);
    assert_eq!(nth_from_end(&Vec::new(), 2), None);
}

#[test]
fn summary_appends_missing_session_file_paths() {
    let mut summary = "goal and next step".to_string();
    ensure_summary_lists_files(
        &mut summary,
        &vec![CompactFile {
            path: "/tmp/artifacts/sess/context/api.md".into(),
            content: "# API".into(),
        }],
    );
    assert!(summary.contains("goal and next step"), "{summary}");
    assert!(summary.contains("/tmp/artifacts/sess/context/api.md"), "{summary}");
    assert!(!summary.contains("{\"summary\""), "{summary}");
}

#[test]
fn summary_listing_is_exact_and_skips_named_files() {
    let mut summary = "see a.md".to_string();
    let files = vec![
        CompactFile { path: "a.md".into(), content: String::new() },
        CompactFile { path: "b.md".into(), content: String::new() },
    ];
    ensure_summary_lists_files(&mut summary, &files);
    assert_eq!(summary, "see a.md\n\nContext files:\n- b.md\n");
    let mut again = summary.clone();
    ensure_summary_lists_files(&mut again, &files);
    assert_eq!(again, summary);
    assert_eq!(add_summary_heading("note".into()), "Conversation summary:\nnote");
    assert_eq!(add_summary_heading("  History Summary: x".into()), "  History Summary: x");
    assert_eq!(add_summary_heading("  ".into()), "  ");
}

#[test]
fn compact_llm_is_disabled_by_default() {
    let cfg = CompactLlmConfig::disabled();
    assert!(!cfg.enabled);
    assert_eq!(COMPACT_LLM_ID, "compact-llm");
}

#[test]
fn annotate_does_not_double_prefix() {
    let once = annotate_history_summary("keep the tests green");
    assert!(once.starts_with(HISTORY_SUMMARY_ZH), "{once}");
    let twice = annotate_history_summary(&once);
    assert_eq!(once, twice);
}

#[test]
fn summary_markers_and_labels() {
    assert_eq!(annotate_history_summary("   "), "");
    assert_eq!(annotate_history_summary(" History summary: x "), "History summary: x");
    assert!(is_history_summary("  历史摘要：abc"));
    assert!(is_history_summary("history summary"));
    assert!(!is_history_summary("hello"));
    assert_eq!(strip_summary_label(" 历史摘要： body "), "body");
    assert_eq!(strip_summary_label("History summary: body"), "body");
    assert_eq!(strip_summary_label(" plain "), "plain");
    assert!(is_checkpoint_file("dir/c1.json"));
    assert!(!is_checkpoint_file("dir/index.json"));
    assert!(!is_checkpoint_file("dir/.tmp.json"));
    assert!(!is_checkpoint_file("dir/c1.txt"));
    assert!(is_checkpoint_json("c2.json"));
}

#[test]
fn fingerprint_names_model_prompt_hash_and_version() {
    assert_eq!(
        sha256_hex(b"abc"),
        "ba7816bf8f01cfea414140de5dae2223b00361a396177a9cb410ff61f20015ad"
    );
    let fp = fingerprint("m1", "abc");
    assert_eq!(
        fp,
        "m1|ba7816bf8f01cfea414140de5dae2223b00361a396177a9cb410ff61f20015ad|heuristic|1"
    );
    let cfg = CompactLlmConfig::enabled("m1".into(), "abc".into());
    assert!(cfg.enabled);
    assert_eq!(cfg.fingerprint(), fp);
}

fn sandbox_message(r: Result<(), CompactLlmError>) -> String {
    match r {
        Err(CompactLlmError::Sandbox(m)) => m,
        other => panic!("expected a sandbox error, got {other:?}"),
    }
}

#[test]
fn relative_paths_are_checked() {
    assert!(check_relative("notes.md").is_ok());
    assert!(check_relative("./a/./b.md").is_ok());
    assert_eq!(sandbox_message(check_relative("")), "empty path");
    assert_eq!(sandbox_message(check_relative("a\0b")), "path contains NUL");
    assert_eq!(sandbox_message(check_relative("~/x")), "~ is not allowed");
    assert_eq!(sandbox_message(check_relative("a/")), "path must name a file");
    assert_eq!(sandbox_message(check_relative("/etc/passwd")), "absolute path is not allowed");
    assert_eq!(sandbox_message(check_relative("C:x")), "absolute path is not allowed");
    assert_eq!(sandbox_message(check_relative("a/../b")), ".. is not allowed");
    assert_eq!(sandbox_message(check_relative("a\\..\\b")), ".. is not allowed");
    assert_eq!(sandbox_message(check_relative("a/~/b")), "~ is not allowed");
    assert_eq!(sandbox_message(check_relative(".")), "empty path");
}

#[test]
fn sandbox_paths_stay_under_root() {
    let dest = join_under_root("/tmp/c1", "./notes/a.md").ok().expect("joined");
    assert_eq!(dest, "/tmp/c1/notes/a.md");
    assert!(join_under_root("/tmp/c1", "../x").is_err());
    assert!(path_is_under_root("/tmp/c1", "/tmp/c1/notes/a.md"));
    assert!(!path_is_under_root("/tmp/c1", "/tmp/c1/"));
    assert!(!path_is_under_root("/tmp/c1", "/tmp/c10/a"));
    assert_eq!(relative_to_root("/tmp/c1", "/tmp/c1//notes/a.md").ok().as_deref(), Some("notes/a.md"));
    assert!(relative_to_root("/tmp/c1", "/tmp/other").is_err());
    assert!(relative_to_root("/tmp/c1", "/tmp/c1").is_err());
    assert_eq!(media_type_for("notes/A.MD"), "text/markdown");
    assert_eq!(media_type_for("notes/a.txt"), "text/plain");
}

#[test]
fn manifest_enforces_file_count_size_and_total() {
    let limits = SandboxLimits { max_file_bytes: 10, max_file_count: 2, max_total_bytes: 15 };
    let mut m = SandboxManifest::new(limits);
    let a = entry_for("a.md".into(), "12345678");
    assert_eq!(a.bytes, 8);
    assert_eq!(a.media_type, "text/markdown");
    assert!(m.check_write(&a).is_ok());
    m.record(a);
    let too_big = entry_for("big.txt".into(), "0123456789A");
    assert!(matches!(m.check_write(&too_big), Err(CompactLlmError::Sandbox(_))));
    let b = entry_for("b.txt".into(), "1234567");
    assert!(m.check_write(&b).is_ok());
    let b2 = entry_for("b.txt".into(), "12345678");
    match m.check_write(&b2) {
        Err(CompactLlmError::Sandbox(msg)) => {
            assert_eq!(msg, "total bytes would exceed max_total_bytes (16 > 15)")
        }
        other => panic!("unexpected {other:?}"),
    }
    m.record(b);
    let c = entry_for("c.txt".into(), "1");
    match m.check_write(&c) {
        Err(CompactLlmError::Sandbox(msg)) => assert_eq!(msg, "file count exceeds max_file_count (2)"),
        other => panic!("unexpected {other:?}"),
    }
    let a2 = entry_for("a.md".into(), "12");
    assert!(m.check_write(&a2).is_ok());
    m.record(a2);
    assert_eq!(m.manifest().len(), 2);
    assert_eq!(m.manifest()[0].bytes, 2);
    assert!(m.limits_hold());
}

#[test]
fn checkpoint_names_are_validated() {
    assert!(validate_id("c1").is_ok());
    assert!(validate_id("").is_err());
    assert!(validate_id(".hidden").is_err());
    assert!(validate_id("c1.json").is_err());
    assert!(validate_id("c1.pending").is_err());
    assert!(validate_id("a/b").is_err());
    assert!(validate_rel_path("notes/a.md").is_ok());
    assert!(validate_rel_path("/abs").is_err());
    assert!(validate_rel_path("./a").is_err());
    assert!(validate_rel_path("a/../b").is_err());
    assert!(validate_rel_path("").is_err());
}

#[test]
fn encode_session_cwd_percent_encodes_paths() {
    assert_eq!(encode_session_cwd("/Users/me/proj"), "%2FUsers%2Fme%2Fproj");
    assert_eq!(encode_session_cwd("/tmp/"), "%2Ftmp");
    assert_eq!(encode_session_cwd(""), "_");
    assert_eq!(encode_session_cwd(r"C:\Users\me"), "C%3A%2FUsers%2Fme");
    let long = format!("/{}", "a".repeat(300));
    let hashed = encode_session_cwd(&long);
    assert!(hashed.len() <= 255, "{hashed}");
    assert!(hashed.contains('-'), "{hashed}");
    assert!(!hashed.contains('%'), "{hashed}");
}

#[test]
fn session_meta_and_runtime_ops() {
    let meta = SessionMeta::new("s1".into(), "/w".into());
    assert_eq!(meta.storage_version, 2);
    assert_eq!(meta.committed_message_count, 0);
    assert!(meta.active_compaction_id.is_none());
    let ops = vec![
        RuntimeOp::BeginRun { run_id: "r1".into(), prompt_seq: 1 },
        RuntimeOp::Commit {
            operation_id: "op1".into(),
            run_id: Some("r1".into()),
            committed_message_count: 2,
            ordinals: vec![1, 2],
            count: 2,
        },
        RuntimeOp::Abort { operation_id: "op2".into(), reason: "x".into() },
        RuntimeOp::Commit {
            operation_id: "op1".into(),
            run_id: Some("r2".into()),
            committed_message_count: 3,
            ordinals: vec![3],
            count: 1,
        },
    ];
    assert_eq!(finished_operation_ids(&ops), vec!["op1".to_string(), "op2".to_string()]);
    assert_eq!(committed_ordinals_for(&ops, "r1"), vec![1, 2]);
    assert_eq!(committed_ordinals_for(&ops, "r3"), Vec::<u64>::new());
}

#[test]
fn empty_id_uses_unknown() {
    assert_eq!(sanitize_call_id(""), "unknown");
    assert_eq!(sanitize_call_id("$$$"), "___");
}

#[test]
fn path_escape_stays_inside_dir() {
    let dest = spill_file_path("/tmp/spills", "../../etc/passwd");
    assert_eq!(dest, "/tmp/spills/.._.._etc_passwd.txt");
    assert_eq!(spill_dir("/root", "g", "s1"), "/root/g/spills/s1");
    assert_eq!(sanitize_call_id(&"x".repeat(200)).len(), 120);
    let loc = locator_for("/d", "call/1");
    assert_eq!(loc.path.as_deref(), Some("/d/call_1.txt"));
    assert_eq!(loc.line, Some(1));
    assert_eq!(spill_notice("c1", 42), "[spilled: 42 chars; recall tool_call_id `c1`]");
}

fn fact(name: &str, input: &str, body: &str) -> ExecutionFact {
    ExecutionFact {
        tool_call_id: "call_1".into(),
        function_name: name.into(),
        raw_input: parse_json(input).expect("json"),
        phase: ToolPhase::Terminal,
        outcome: Some(ToolOutcome::Success),
        executed: Some(true),
        model_presentation: Some(body.to_string()),
        truncated: false,
        output_locator: None,
        reason: None,
        turn_id: "s:1".into(),
    }
}

#[test]
fn cancel_keeps_confirmed_success_and_marks_unstarted_cancelled() {
    let mut store = ContextStore::new("sess".into());
    store.append_user("sess:1".into(), "do both".into());
    let mut a = fact("write_mem", r#"{"text": "A"}"#, "wrote A");
    a.tool_call_id = "call_a".into();
    a.turn_id = "sess:1".into();
    store.record_fact(a);
    store.record_fact(ExecutionFact::pending(
        "sess:1".into(),
        "call_b".into(),
        "write_mem".into(),
        parse_json(r#"{"text": "B"}"#).unwrap(),
    ));
    store.settle_cancel("sess:1");
    let a = store.fact("call_a").unwrap();
    assert_eq!(a.outcome, Some(ToolOutcome::Success));
    assert_eq!(a.executed, Some(true));
    let b = store.fact("call_b").unwrap();
    assert_eq!(b.outcome, Some(ToolOutcome::Cancelled));
    assert_eq!(b.executed, Some(false));
    assert_eq!(b.model_presentation.as_deref(), Some("tool `write_mem` was cancelled before execution"));
    assert!(store.auto_replay_ids().is_empty());
}

#[test]
fn started_without_terminal_becomes_unknown_and_is_not_replayed() {
    let mut store = ContextStore::new("sess".into());
    store.append_user("sess:1".into(), "write".into());
    let mut u = fact("write_mem", "{}", "");
    u.tool_call_id = "call_u".into();
    u.turn_id = "sess:1".into();
    u.phase = ToolPhase::Started;
    u.outcome = None;
    u.executed = None;
    u.model_presentation = None;
    store.record_fact(u);
    store.settle_cancel("sess:1");
    let u = store.fact("call_u").unwrap();
    assert_eq!(u.outcome, Some(ToolOutcome::Unknown));
    assert!(u.executed.is_none());
    assert!(store.auto_replay_ids().is_empty());
    assert_eq!(store.unknown_ids(), vec!["call_u".to_string()]);
}

#[test]
fn rig_history_without_a_cannot_drop_a_fact() {
    let mut store = ContextStore::new("sess".into());
    let mut a = fact("write_mem", r#"{"text": "A"}"#, "wrote A");
    a.tool_call_id = "call_a".into();
    a.turn_id = "sess:1".into();
    store.record_fact(a);
    store.settle_cancel("sess:1");
    assert_eq!(store.fact("call_a").unwrap().outcome, Some(ToolOutcome::Success));
}

#[test]
fn store_turns_and_call_identity() {
    let mut store = ContextStore::new("sess".into());
    assert_eq!(store.prompt_index(), 0);
    store.append_user("sess:0".into(), "hi".into());
    assert_eq!(store.turn_id_for_prompt(store.prompt_index()), "sess:1");
    let mut bridge = CallIdentityBridge::new();
    assert!(bridge.require(1).is_err());
    bridge.set(CallIdentity {
        turn_id: 1,
        turn_key: "sess:1".into(),
        tool_call_id: "c".into(),
        function_name: "f".into(),
    });
    assert_eq!(bridge.require(1).ok().map(|c| c.tool_call_id), Some("c".to_string()));
    assert_eq!(
        bridge.require(2).err().map(|e| e.message()),
        Some("call identity turn 1 does not match current 2".to_string())
    );
    bridge.clear();
    assert_eq!(bridge.require(1).err().map(|e| e.message()), Some("missing call identity".to_string()));
    assert_eq!(acp_status_for(Some(ToolOutcome::Success), ToolPhase::Terminal), "completed");
    assert_eq!(acp_status_for(Some(ToolOutcome::Error), ToolPhase::Terminal), "failed");
    assert_eq!(acp_status_for(None, ToolPhase::Started), "in_progress");
}

#[test]
fn read_distill_keeps_path_excerpts_and_reread_hint() {
    let body = format!("HEAD-MARKER-{}-TAIL-MARKER", "n".repeat(5_000));
    let item = fact("read_file", r#"{"path": "src/a.rs"}"#, &body);
    let out = distill_tool_result("read_file", Some(&item), &body, DistillKind::Live);
    assert!(out.contains("src/a.rs"), "{out}");
    assert!(out.contains("HEAD-MARKER-"), "{out}");
    assert!(out.contains("TAIL-MARKER"), "{out}");
    assert!(out.contains("re-read"), "{out}");
    assert!(!out.contains(&"n".repeat(3_000)), "{out}");
}

#[test]
fn write_distill_collapses_to_path_and_size() {
    let body = format!("FILE-BODY-{}", "w".repeat(8_000));
    let item = fact("write_file", r#"{"path": "src/out.rs", "content": "hello world"}"#, &body);
    let out = distill_tool_result("write_file", Some(&item), &body, DistillKind::Live);
    assert_eq!(out, "Wrote src/out.rs (11 chars).");
}

#[test]
fn bash_distill_keeps_exit_code_and_tail() {
    let body = format!(
        "exit_code: 1\ntruncated: false\ncaptured_bytes: 9000\n\nHEAD-OUT-{}-TAIL-ERR",
        "x".repeat(6_000)
    );
    let item = fact("bash", r#"{"command": "cargo test"}"#, &body);
    let out = distill_tool_result("bash", Some(&item), &body, DistillKind::Live);
    assert!(out.contains("exit_code: 1"), "{out}");
    assert!(out.contains("cargo test"), "{out}");
    assert!(out.contains("HEAD-OUT-"), "{out}");
    assert!(out.contains("TAIL-ERR"), "{out}");
}

#[test]
fn bash_hard_clear_points_at_recall_when_spilled() {
    let body = format!("OLD-BASH-{}", "x".repeat(4_000));
    let mut item = fact("bash", r#"{"command": "ls"}"#, &body);
    item.truncated = true;
    item.output_locator = Some(OutputLocator { path: Some("/tmp/spill.txt".into()), line: Some(1) });
    let out = hard_clear_tool_result("bash", Some(&item), &body);
    assert!(out.contains("tool_call_id `call_1`"), "{out}");
    assert!(!out.contains("OLD-BASH-"), "{out}");
}

#[test]
fn hard_clear_read_keeps_path_without_body() {
    let body = format!("OLD-TOOL-BODY-{}", "x".repeat(4_000));
    let item = fact("read_file", r#"{"path": "f0.txt"}"#, &body);
    let out = hard_clear_tool_result("read_file", Some(&item), &body);
    assert!(out.contains("f0.txt"), "{out}");
    assert!(out.contains("re-read"), "{out}");
    assert!(!out.contains("OLD-TOOL-BODY-"), "{out}");
}

#[test]
fn codegraph_distill_uses_search_path() {
    let body = format!("HEAD-GRAPH-{}-TAIL-GRAPH", "n".repeat(5_000));
    let item = fact("codegraph", r#"{"query": "auth"}"#, &body);
    let out = distill_tool_result("codegraph", Some(&item), &body, DistillKind::Live);
    assert!(out.contains("codegraph"), "{out}");
    assert!(out.contains("run the search"), "{out}");
    assert!(out.contains("HEAD-GRAPH-"), "{out}");
    assert!(out.contains("TAIL-GRAPH"), "{out}");
    assert!(!out.contains(&"n".repeat(3_000)), "{out}");
}

#[test]
fn hard_clear_codegraph_omits_body_like_grep() {
    let body = format!("OLD-GRAPH-{}", "x".repeat(4_000));
    let item = fact("codegraph", r#"{"query": "auth"}"#, &body);
    let out = hard_clear_tool_result("codegraph", Some(&item), &body);
    assert!(out.contains("codegraph"), "{out}");
    assert!(out.contains("re-run the search"), "{out}");
    assert!(!out.contains("OLD-GRAPH-"), "{out}");
}

#[test]
fn lsp_distill_uses_search_path() {
    let body = format!("HEAD-LSP-{}-TAIL-LSP", "n".repeat(5_000));
    let item = fact("lsp", r#"{"query": "Foo"}"#, &body);
    let out = distill_tool_result("lsp", Some(&item), &body, DistillKind::Live);
    assert!(out.contains("lsp"), "{out}");
    assert!(out.contains("run the search"), "{out}");
    assert!(out.contains("HEAD-LSP-"), "{out}");
    assert!(out.contains("TAIL-LSP"), "{out}");
    assert!(!out.contains(&"n".repeat(3_000)), "{out}");
}

#[test]
fn hard_clear_lsp_omits_body_like_grep() {
    let body = format!("OLD-LSP-{}", "x".repeat(4_000));
    let item = fact("lsp", r#"{"query": "Foo"}"#, &body);
    let out = hard_clear_tool_result("lsp", Some(&item), &body);
    assert!(out.contains("lsp"), "{out}");
    assert!(out.contains("re-run the search"), "{out}");
    assert!(!out.contains("OLD-LSP-"), "{out}");
}

#[test]
fn read_header_path_and_short_results() {
    let body = format!("# src/lib.rs (lines 1-9)\r\n{}", "y".repeat(5_000));
    let out = hard_clear_tool_result("read_file", None, &body);
    assert!(out.starts_with("Read src/lib.rs complete (5026 chars)."), "{out}");
    assert_eq!(distill_tool_result("other", None, "short", DistillKind::Summarize), "short");
    assert_eq!(
        hard_clear_tool_result("mystery", None, "abc"),
        "[Old tool result content cleared] (mystery, 3 chars)."
    );
    assert_eq!(distill_tool_result("write_file", None, "Wrote x (1 chars).", DistillKind::Live), "Wrote x (1 chars).");
}

fn sized(path: &str, bytes: u64) -> CompactLlmFileEntry {
    CompactLlmFileEntry {
        path: path.into(),
        bytes,
        sha256: String::new(),
        media_type: "text/plain".into(),
    }
}

#[test]
fn a_total_cap_of_u64_max_is_accepted() {
    let limits = SandboxLimits { max_file_bytes: u64::MAX, max_file_count: 4, max_total_bytes: u64::MAX };
    let mut m = SandboxManifest::new(limits);
    let x = sized("x.txt", u64::MAX - 1);
    assert!(m.check_write(&x).is_ok());
    assert!(m.record_fits(&x));
    m.record(x);
    let y = sized("y.txt", 1);
    assert!(m.check_write(&y).is_ok());
    assert!(m.record_fits(&y));
    m.record(y);
    let z = sized("z.txt", 1);
    assert!(m.check_write(&z).is_ok());
    assert!(!m.record_fits(&z));
    let y2 = sized("y.txt", 0);
    assert!(m.record_fits(&y2));
    assert!(m.limits_hold());
}
