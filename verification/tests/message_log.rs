use codeg_core::context::compact_llm::checkpoint::{
    checkpoint_file_accepted, committed_files_action, file_parts, is_orphan_dir, FilesDirAction,
};
use codeg_core::context::compact_llm::sandbox::CompactLlmFileEntry;
use codeg_core::context::compact_llm::sha256_hex;
use codeg_core::context::message_memory::{
    append_plan, check_session_meta, committed_byte_end, frame_payload, hashes_match,
    max_committed_count, next_start_ordinal, recover_prepare_action, runner_history_count,
    unfinished_prepares, PrepareRecovery, RuntimeOp, SessionMeta,
};

fn commit(op: &str, run: Option<&str>, count: u64, ordinals: Vec<u64>) -> RuntimeOp {
    RuntimeOp::Commit {
        operation_id: op.to_string(),
        run_id: run.map(str::to_string),
        committed_message_count: count,
        count: ordinals.len() as u64,
        ordinals,
    }
}

fn prepare(op: &str, offset: u64, hashes: Vec<String>) -> RuntimeOp {
    RuntimeOp::Prepare {
        operation_id: op.to_string(),
        run_id: Some("run-1".to_string()),
        ordinals: vec![0],
        expected_offset: offset,
        count: hashes.len() as u64,
        byte_len: 0,
        content_hashes: hashes,
    }
}

fn items() -> Vec<Vec<u8>> {
    vec![b"{\"role\":\"user\"}".to_vec(), b"{\"role\":\"assistant\"}".to_vec()]
}

#[test]
fn framed_append_matches_its_hashes() {
    let (payload, hashes) = frame_payload(&items());
    assert_eq!(payload, b"{\"role\":\"user\"}\n{\"role\":\"assistant\"}\n".to_vec());
    assert_eq!(hashes, vec![sha256_hex(b"{\"role\":\"user\"}"), sha256_hex(b"{\"role\":\"assistant\"}")]);
    assert!(hashes_match(&payload, &hashes));
}

#[test]
fn truncated_or_altered_tail_does_not_match() {
    let (payload, hashes) = frame_payload(&items());
    assert!(!hashes_match(&payload[..payload.len() - 1].to_vec(), &hashes));
    assert!(!hashes_match(&payload[..16].to_vec(), &hashes));
    let mut altered = payload.clone();
    altered[3] = b'X';
    assert!(!hashes_match(&altered, &hashes));
    assert!(!hashes_match(&payload, &hashes[..1].to_vec()));
    assert!(!hashes_match(&Vec::new(), &Vec::new()));
}

#[test]
fn byte_end_of_committed_lines() {
    let data = b"a\nbb\nccc".to_vec();
    assert_eq!(committed_byte_end(&data, 0), Ok(0));
    assert_eq!(committed_byte_end(&data, 1), Ok(2));
    assert_eq!(committed_byte_end(&data, 2), Ok(5));
    assert_eq!(
        committed_byte_end(&data, 3),
        Err("messages.jsonl has 2 complete lines, expected 3 committed".to_string())
    );
}

#[test]
fn recovery_of_prepared_appends() {
    let (payload, hashes) = frame_payload(&items());
    let n = payload.len() as u64;
    assert_eq!(
        recover_prepare_action(3, 100, 2, n, &hashes, 50, &Vec::new()),
        PrepareRecovery::Abort("messages_shorter_than_prepare_offset".to_string())
    );
    assert_eq!(
        recover_prepare_action(3, 100, 2, n, &hashes, 100, &Vec::new()),
        PrepareRecovery::Abort("prepare_not_started".to_string())
    );
    assert_eq!(
        recover_prepare_action(3, 100, 2, n, &hashes, 100 + n, &payload),
        PrepareRecovery::Commit { new_count: 5 }
    );
    assert_eq!(
        recover_prepare_action(3, 100, 2, n, &hashes, 100 + n - 4, &payload),
        PrepareRecovery::IsolateAndAbort("truncated_or_hash_mismatch".to_string())
    );
}

#[test]
fn recovery_settles_on_largest_commit_and_finds_unfinished_prepares() {
    let ops = vec![
        prepare("op-1", 0, vec![]),
        commit("op-1", Some("run-1"), 2, vec![0, 1]),
        prepare("op-2", 10, vec![]),
        commit("op-9", None, 7, vec![]),
        RuntimeOp::Abort { operation_id: "op-3".to_string(), reason: "x".to_string() },
        prepare("op-3", 20, vec![]),
    ];
    assert_eq!(max_committed_count(1, &ops), 7);
    assert_eq!(max_committed_count(9, &ops), 9);
    assert_eq!(unfinished_prepares(&ops), vec![2]);
}

#[test]
fn append_is_idempotent_for_committed_ordinals() {
    let ops = vec![commit("op-1", Some("run-1"), 2, vec![0, 1])];
    let (kept, ordinals) = append_plan(&ops, Some("run-1"), 0, 3);
    assert_eq!(kept, vec![2]);
    assert_eq!(ordinals, vec![2]);
    let (kept, _) = append_plan(&ops, Some("run-1"), 0, 2);
    assert!(kept.is_empty());
    let (kept, ordinals) = append_plan(&ops, Some("run-2"), 0, 2);
    assert_eq!(kept, vec![0, 1]);
    assert_eq!(ordinals, vec![0, 1]);
    let (kept, _) = append_plan(&ops, None, 0, 2);
    assert_eq!(kept, vec![0, 1]);
    assert_eq!(next_start_ordinal(&ops, "run-1"), 2);
    assert_eq!(next_start_ordinal(&ops, "run-2"), 0);
}

#[test]
fn checkpoint_file_must_name_its_id() {
    assert!(checkpoint_file_accepted("compact-1", "compact-1", None));
    assert!(checkpoint_file_accepted("compact-1", "compact-1", Some("compact-1")));
    assert!(!checkpoint_file_accepted("compact-1", "compact-2", None));
    assert!(!checkpoint_file_accepted("compact-1", "compact-1", Some("compact-2")));
    assert!(!checkpoint_file_accepted(".hidden", ".hidden", None));
}

#[test]
fn store_recovery_removes_orphans_and_finishes_renames() {
    let committed = vec!["compact-1".to_string()];
    assert!(!is_orphan_dir("compact-1", &committed));
    assert!(is_orphan_dir("compact-1.pending", &committed));
    assert!(is_orphan_dir("compact-2", &committed));
    assert_eq!(committed_files_action(false, true), FilesDirAction::Keep);
    assert_eq!(committed_files_action(true, true), FilesDirAction::RemovePending);
    assert_eq!(committed_files_action(true, false), FilesDirAction::RenamePending);
}

#[test]
fn expanded_summary_lists_each_attachment() {
    let entries = vec![CompactLlmFileEntry {
        path: "notes/a.md".to_string(),
        bytes: 2,
        sha256: sha256_hex(b"hi"),
        media_type: "text/markdown".to_string(),
    }];
    assert_eq!(file_parts(&entries, &vec!["hi".to_string()]), vec!["## file: notes/a.md\nhi".to_string()]);
}

#[test]
fn stored_metadata_must_match_format_and_session() {
    let meta = SessionMeta::new("s1".to_string(), "/tmp".to_string());
    assert_eq!(check_session_meta(&meta, "s1"), Ok(()));
    assert_eq!(
        check_session_meta(&meta, "s2"),
        Err("session.json session_id s1 does not match s2".to_string())
    );
    let mut old = SessionMeta::new("s1".to_string(), "/tmp".to_string());
    old.storage_version = 1;
    assert_eq!(
        check_session_meta(&old, "s1"),
        Err("unsupported storage_version 1 (expected 2); refusing to rewrite".to_string())
    );
    let mut other = SessionMeta::new("s1".to_string(), "/tmp".to_string());
    other.message_format = "x".to_string();
    assert_eq!(
        check_session_meta(&other, "s1"),
        Err("unsupported message_format x (expected rig::completion::Message)".to_string())
    );
}

#[test]
fn load_excludes_prompt_saved_after_history_boundary() {
    assert_eq!(runner_history_count(5, Some(5)), 4);
    assert_eq!(runner_history_count(5, Some(9)), 5);
    assert_eq!(runner_history_count(5, Some(0)), 5);
    assert_eq!(runner_history_count(5, None), 5);
    assert_eq!(runner_history_count(0, Some(1)), 0);
}
