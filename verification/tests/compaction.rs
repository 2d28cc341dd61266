use codeg_core::context::compact::{
    chunk_evicted_messages, compact_prompt_body, plan_summary_chunks, COMPACT_CHUNK_MAX_BYTES,
};

/// Serialized size of a rig user message with one text part.
fn user_message_len(text: &str) -> usize {
    format!(
        "{{\"role\":\"user\",\"content\":[{{\"type\":\"text\",\"text\":\"{}\"}}]}}",
        text
    )
    .len()
}

#[test]
fn compact_chunks_keep_whole_messages() {
    let sizes = vec![
        user_message_len(&"H".repeat(COMPACT_CHUNK_MAX_BYTES + 8)),
        user_message_len("tail-message"),
    ];
    let chunks = chunk_evicted_messages(&sizes);
    assert_eq!(chunks.len(), 2);
    assert_eq!(chunks[0].1 - chunks[0].0, 1);
    assert_eq!(chunks[1].1 - chunks[1].0, 1);
    let packed = vec![user_message_len("a"), user_message_len("b")];
    let one = chunk_evicted_messages(&packed);
    assert_eq!(one.len(), 1);
    assert_eq!(one[0].1 - one[0].0, 2);
}

#[test]
fn chunks_split_where_the_budget_is_exceeded() {
    let half = COMPACT_CHUNK_MAX_BYTES / 2;
    let sizes = vec![half, half, 1, half, half];
    assert_eq!(chunk_evicted_messages(&sizes), vec![(0, 2), (2, 4), (4, 5)]);
    assert_eq!(chunk_evicted_messages(&vec![]), vec![(0, 0)]);
}

#[test]
fn too_many_chunks_are_refused() {
    let sizes = vec![COMPACT_CHUNK_MAX_BYTES; 9];
    assert_eq!(
        plan_summary_chunks(&sizes),
        Err("compact needs 9 completions; cap is 8".to_string())
    );
    let sizes = vec![COMPACT_CHUNK_MAX_BYTES; 8];
    assert_eq!(plan_summary_chunks(&sizes).map(|c| c.len()), Ok(8));
}

#[test]
fn prompt_body_carries_previous_summary_and_json_array() {
    let evicted = vec!["{\"a\":1}".to_string(), "{\"b\":2}".to_string()];
    assert_eq!(
        compact_prompt_body(&evicted, Some("  old summary ")),
        "Previous summary:\nold summary\n\nEvicted turns:\n[{\"a\":1},{\"b\":2}]".to_string()
    );
    assert_eq!(
        compact_prompt_body(&evicted, Some("   ")),
        "Evicted turns:\n[{\"a\":1},{\"b\":2}]".to_string()
    );
    assert_eq!(compact_prompt_body(&vec![], None), "Evicted turns:\n[]".to_string());
}
