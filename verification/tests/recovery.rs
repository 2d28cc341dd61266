use codeg_core::context::compact_llm::recovery::{choose_active, pick_reusable, CheckpointSummary};

fn cp(id: &str, previous: Option<&str>, covers: u64) -> CheckpointSummary {
    CheckpointSummary {
        id: id.to_string(),
        previous_id: previous.map(str::to_string),
        conversation_id: "conv".to_string(),
        epoch: 1,
        covers_through_seq: covers,
        source_slice_sha256: format!("slice-{covers}"),
        fingerprint: "model|abc|heuristic|1".to_string(),
        committed: true,
        files_ok: true,
    }
}

#[test]
fn pointer_walks_forward_to_the_single_successor() {
    let committed = vec![cp("a", None, 3), cp("b", Some("a"), 5), cp("c", Some("b"), 9)];
    let active = choose_active(Some("a"), &committed).expect("active");
    assert_eq!(committed[active].id, "c");
}

#[test]
fn two_successors_stop_the_walk() {
    let committed = vec![cp("a", None, 3), cp("b", Some("a"), 5), cp("b2", Some("a"), 6)];
    let active = choose_active(Some("a"), &committed).expect("active");
    assert_eq!(committed[active].id, "a");
}

#[test]
fn missing_pointer_is_repaired_from_the_single_tip() {
    let committed = vec![cp("c4", None, 3)];
    let active = choose_active(None, &committed).expect("repaired");
    assert_eq!(committed[active].id, "c4");
    let chain = vec![cp("a", None, 3), cp("b", Some("a"), 5)];
    let active = choose_active(Some("gone"), &chain).expect("tip");
    assert_eq!(chain[active].id, "b");
}

#[test]
fn unverified_files_or_broken_lineage_are_not_resumed() {
    let mut bad = cp("a", None, 3);
    bad.files_ok = false;
    assert_eq!(choose_active(Some("a"), &vec![bad]), None);
    let orphan = cp("b", Some("missing"), 5);
    assert_eq!(choose_active(Some("b"), &vec![orphan]), None);
    let backwards = vec![cp("a", None, 9), cp("b", Some("a"), 5)];
    let active = choose_active(Some("b"), &backwards).expect("falls back to the tip");
    assert_eq!(backwards[active].id, "a");
}

#[test]
fn two_generations_resume_nothing() {
    let mut other = cp("x", None, 4);
    other.epoch = 2;
    let committed = vec![cp("a", None, 3), other];
    assert_eq!(choose_active(None, &committed), None);
    assert_eq!(choose_active(None, &Vec::new()), None);
}

#[test]
fn reuse_prefers_committed_then_smallest_id() {
    let mut pending = cp("a-pending", None, 7);
    pending.committed = false;
    pending.source_slice_sha256 = "s".into();
    let mut late = cp("z-committed", None, 7);
    late.source_slice_sha256 = "s".into();
    let mut early = cp("m-committed", None, 7);
    early.source_slice_sha256 = "s".into();
    let all = vec![pending, late, early];
    let hit = pick_reusable(&all, "conv", 1, 7, "s", "model|abc|heuristic|1").expect("hit");
    assert_eq!(all[hit].id, "m-committed");
    let miss = pick_reusable(&all, "conv", 1, 7, "s", "other-fingerprint");
    assert_eq!(miss, None);
}

#[test]
fn reuse_lookup_finds_the_pending_record() {
    let mut only = cp("reuse-1", None, 7);
    only.committed = false;
    let all = vec![only];
    let hit = pick_reusable(&all, "conv", 1, 7, "slice-7", "model|abc|heuristic|1").expect("hit");
    assert_eq!(all[hit].id, "reuse-1");
    assert!(!all[hit].committed);
}
