use codeg_core::context::policy::{
    choose_cut, has_unpaired_tool_result, ids_of, input_budget, is_leading_tool_result,
    safety_margin, tool_groups, ContentKind, CutScope, PolicyMessage,
    DEFAULT_PROTECT_RECENT_TOOL_GROUPS, DEFAULT_PROTECT_RECENT_USER_TURNS,
};

fn user(_text: &str) -> PolicyMessage {
    PolicyMessage { user: true, parts: vec![ContentKind::Other], is_pending: false }
}

fn pending_user(_text: &str) -> PolicyMessage {
    PolicyMessage { user: true, parts: vec![ContentKind::Other], is_pending: true }
}

fn assistant(_text: &str) -> PolicyMessage {
    PolicyMessage { user: false, parts: vec![ContentKind::Other], is_pending: false }
}

fn tool_call(id: &str) -> PolicyMessage {
    PolicyMessage { user: false, parts: vec![ContentKind::ToolCall(id.to_string())], is_pending: false }
}

fn tool_calls(ids: &[&str]) -> PolicyMessage {
    PolicyMessage {
        user: false,
        parts: ids.iter().map(|id| ContentKind::ToolCall(id.to_string())).collect(),
        is_pending: false,
    }
}

fn tool_result(id: &str) -> PolicyMessage {
    PolicyMessage { user: true, parts: vec![ContentKind::ToolResult(id.to_string())], is_pending: false }
}

fn reasoning_and_call(id: &str) -> PolicyMessage {
    PolicyMessage {
        user: false,
        parts: vec![ContentKind::Other, ContentKind::ToolCall(id.to_string())],
        is_pending: false,
    }
}

/// A window that counts one token per message: it keeps the longest suffix
/// of at most `budget` messages.
fn unit_window(budget: usize, n: usize) -> (usize, Vec<bool>) {
    let token_cut = n.saturating_sub(budget);
    let fits = (0..n).map(|c| n - c <= budget).collect();
    (token_cut, fits)
}

fn scope(covers: Option<usize>) -> CutScope {
    let mut s = CutScope::new();
    s.covers_through_seq = covers;
    s
}

fn split(budget: usize, scope: &CutScope, messages: &Vec<PolicyMessage>) -> usize {
    let (token_cut, fits) = unit_window(budget, messages.len());
    let cut = choose_cut(messages, scope, token_cut, &fits).expect("policy");
    assert!(cut <= messages.len(), "cut inside the messages");
    cut
}

fn mixed_sequence() -> Vec<PolicyMessage> {
    vec![
        user("goal-1"),
        assistant("ack-1"),
        tool_calls(&["c1", "c2"]),
        tool_result("c1"),
        tool_result("c2"),
        user("goal-2"),
        reasoning_and_call("c3"),
        tool_result("c3"),
        user("goal-3"),
        assistant("done"),
    ]
}

fn group_unsplit(cut: usize, start: usize, end: usize) {
    assert!(cut <= start || cut >= end, "group [{start}, {end}) split at {cut}");
}

#[test]
fn demoted_is_always_a_prefix_over_mixed_sequence() {
    let messages = mixed_sequence();
    for budget in 0..=messages.len() + 3 {
        for covers in [None, Some(1), Some(3), Some(messages.len()), Some(99)] {
            let cut = split(budget, &scope(covers), &messages);
            assert!(
                !has_unpaired_tool_result(&messages, cut),
                "budget={budget} covers={covers:?} unpaired in kept from {cut}"
            );
        }
    }
}

#[test]
fn wrapping_preserves_token_window_prefix_suffix_on_text() {
    let messages = vec![user("a"), assistant("b"), user("c"), assistant("d"), user("e")];
    for budget in 0..=messages.len() + 2 {
        let (raw_cut, _) = unit_window(budget, messages.len());
        let wrapped = split(budget, &CutScope::new(), &messages);
        assert_eq!(wrapped, raw_cut, "text session should match the token window at budget {budget}");
    }
}

#[test]
fn wrapping_too_small_window_still_returns_prefix_suffix() {
    let messages = mixed_sequence();
    let cut = split(1, &CutScope::new(), &messages);
    assert!(messages.len() - cut <= 1);
}

#[test]
fn multi_call_tool_group_is_never_split() {
    let messages = vec![user("old"), tool_calls(&["a", "b"]), tool_result("a"), tool_result("b"), user("next")];
    for budget in 0..=messages.len() + 1 {
        let cut = split(budget, &CutScope::new(), &messages);
        group_unsplit(cut, 1, 4);
    }
}

#[test]
fn pending_prompt_and_incomplete_group_stay_in_kept() {
    let messages = vec![user("old-1"), assistant("old-ack"), pending_user("current task"), tool_call("live")];
    let cut = split(16, &scope(Some(2)), &messages);
    assert!(cut <= 2, "pending missing from kept");
    assert!(cut <= 3, "incomplete group missing from kept");
    assert_eq!(cut, 2);
}

#[test]
fn pending_that_does_not_fit_returns_context_budget_exceeded() {
    let messages = vec![user("old"), pending_user("current task"), tool_call("live")];
    let (token_cut, fits) = unit_window(1, messages.len());
    let err = choose_cut(&messages, &CutScope::new(), token_cut, &fits).expect_err("pending suffix exceeds budget");
    assert!(err.contains("context_budget_exceeded"), "{err}");
}

#[test]
fn covers_through_seq_does_not_return_summarized_prefix_to_kept() {
    let messages = mixed_sequence();
    let cut = split(usize::MAX, &scope(Some(4)), &messages);
    assert!(cut >= 4, "summarized prefix leaked into kept: demoted={cut}");
}

#[test]
fn covers_through_seq_demotes_whole_group_instead_of_summarized_keep() {
    let messages = vec![user("old"), tool_calls(&["a", "b"]), tool_result("a"), tool_result("b"), user("next")];
    let cut = split(usize::MAX, &scope(Some(3)), &messages);
    assert_eq!(cut, 4);
    assert_eq!(messages.len() - cut, 1);
}

#[test]
fn leading_orphan_tool_result_is_not_kept_unpaired() {
    let messages = vec![tool_call("c1"), tool_result("c1"), user("after")];
    let cut = split(2, &CutScope::new(), &messages);
    assert_eq!(cut, 2);
    assert!(!has_unpaired_tool_result(&messages, cut));
    assert!(
        !messages[cut..]
            .iter()
            .any(|m| is_leading_tool_result(m) && ids_of(m, true).is_empty()),
        "orphan tool result stayed in kept"
    );
}

#[test]
fn leading_orphan_at_start_of_full_window_is_demoted() {
    let messages = vec![tool_result("orphan"), user("hello"), assistant("hi")];
    let cut = split(8, &CutScope::new(), &messages);
    assert!(cut < messages.len());
    assert!(!is_leading_tool_result(&messages[cut]));
    assert!(cut >= 1 && is_leading_tool_result(&messages[0]));
}

#[test]
fn reasoning_and_toolcall_in_same_assistant_stay_together() {
    let messages = vec![user("old"), reasoning_and_call("r1"), tool_result("r1"), user("next")];
    for budget in 0..=messages.len() + 1 {
        let cut = split(budget, &CutScope::new(), &messages);
        group_unsplit(cut, 1, 3);
        let parts = &messages[1].parts;
        assert!(parts.iter().any(|c| matches!(c, ContentKind::Other)));
        assert!(parts.iter().any(|c| matches!(c, ContentKind::ToolCall(_))));
    }
}

#[test]
fn combined_tool_results_in_one_user_message_stay_with_calls() {
    let results = PolicyMessage {
        user: true,
        parts: vec![ContentKind::ToolResult("a".into()), ContentKind::ToolResult("b".into())],
        is_pending: false,
    };
    let messages = vec![user("old"), tool_calls(&["a", "b"]), results, user("next")];
    for budget in 0..=4 {
        let cut = split(budget, &CutScope::new(), &messages);
        group_unsplit(cut, 1, 3);
    }
}

#[test]
fn token_window_constructor_uses_heuristic_counter() {
    let messages = vec![user("old"), pending_user("short")];
    let cut = choose_cut(&messages, &CutScope::new(), 0, &vec![true, true]).expect("apply");
    assert_eq!(messages.len() - cut, 2);
}

#[test]
fn bind_scope_updates_pending_in_place() {
    let unbound = vec![user("old"), user("current task"), tool_call("live")];
    let cut_before = split(16, &CutScope::new(), &unbound);
    assert_eq!(unbound.len() - cut_before, 3);
    let bound = vec![user("old"), pending_user("current task"), tool_call("live")];
    let cut = split(16, &scope(Some(1)), &bound);
    assert_eq!(cut, 1);
}

#[test]
fn tool_groups_mark_complete_and_incomplete_calls() {
    let messages = mixed_sequence();
    let groups = tool_groups(&messages);
    assert_eq!(groups.len(), 2);
    assert_eq!((groups[0].start, groups[0].end, groups[0].complete), (2, 5, true));
    assert_eq!((groups[1].start, groups[1].end, groups[1].complete), (6, 8, true));
    let open = vec![user("x"), tool_calls(&["a", "b"]), tool_result("a")];
    let groups = tool_groups(&open);
    assert_eq!((groups[0].start, groups[0].end, groups[0].complete), (1, 3, false));
}

#[test]
fn scope_defaults_protect_recent_turns_and_groups() {
    let s = CutScope::new();
    assert_eq!(s.protect_recent_user_turns, DEFAULT_PROTECT_RECENT_USER_TURNS);
    assert_eq!(s.protect_recent_tool_groups, DEFAULT_PROTECT_RECENT_TOOL_GROUPS);
    assert!(s.covers_through_seq.is_none());
}

#[test]
fn budget_entry_points_agree_with_the_formula() {
    assert_eq!(safety_margin(10_000), 1024);
    assert_eq!(input_budget(128_000, 4096).expect("budget"), 128_000 - 4096 - 6400);
}
