use atlas::chunking::{push_chunk, PreparedChunk};
use atlas::context::{
    item, push_item, push_metadata_item, push_prompt_message, stable_hash, ContextPromptMessage,
    GenerationContextItemDraft,
};
use atlas::digits::hash_bytes;
use atlas::domain::GenerationContextItemType;
use atlas::export::{format_duration_for_export, ExportDuration};
use atlas::knowledge::push_query_token;

#[test]
fn trace_items_are_numbered_as_they_are_pushed() {
    let draft = item(
        GenerationContextItemType::UserMessage,
        Some("7".to_string()),
        "Latest user message".to_string(),
        "What changed in the schema?",
        None,
    );
    assert_eq!(draft.token_count_estimate, 7);
    assert_eq!(draft.order_index, 0);
    let mut items: Vec<GenerationContextItemDraft> = Vec::new();
    let mut order_index = 3;
    push_item(&mut items, &mut order_index, draft);
    push_metadata_item(
        &mut items,
        &mut order_index,
        GenerationContextItemType::ModelOptions,
        None,
        "Model options".to_string(),
        0,
        Some("{}".to_string()),
    );
    assert_eq!(order_index, 5);
    assert_eq!(items.len(), 2);
    assert_eq!(items[0].order_index, 3);
    assert_eq!(items[0].label, "Latest user message");
    assert_eq!(items[1].order_index, 4);
    assert_eq!(items[1].metadata_json.as_deref(), Some("{}"));
}

#[test]
fn prompt_messages_count_their_tokens() {
    let mut messages: Vec<ContextPromptMessage> = Vec::new();
    let mut items: Vec<GenerationContextItemDraft> = Vec::new();
    let mut order_index = 0;
    let mut estimate = 10;
    let draft = item(GenerationContextItemType::SystemPrompt, None, "System".to_string(), "abcdefghi", None);
    push_prompt_message(
        &mut messages,
        &mut items,
        &mut order_index,
        ContextPromptMessage { role: "system".to_string(), content: "abcdefghi".to_string() },
        draft,
        &mut estimate,
    );
    assert_eq!(estimate, 13);
    assert_eq!(messages.len(), 1);
    assert_eq!(messages[0].role, "system");
    assert_eq!(items[0].order_index, 0);
    assert_eq!(order_index, 1);
}

#[test]
fn stable_hash_is_the_fnv_hash_of_the_bytes() {
    assert_eq!(stable_hash(b""), "cbf29ce484222325");
    assert_eq!(stable_hash(b"a"), "af63dc4c8601ec8c");
    assert_eq!(stable_hash(b"atlas"), hash_bytes(b"atlas"));
}

#[test]
fn durations_under_a_second_are_shown_in_milliseconds() {
    let d = |ms: i64| ExportDuration { ms, seconds: format!("{:.2}", ms as f64 / 1_000.0) };
    assert_eq!(format_duration_for_export(&d(0)), "0 ms");
    assert_eq!(format_duration_for_export(&d(999)), "999 ms");
    assert_eq!(format_duration_for_export(&d(1_000)), "1.00 s");
    assert_eq!(format_duration_for_export(&d(61_234)), "61.23 s");
}

#[test]
fn query_tokens_keep_long_new_significant_words() {
    let mut tokens: Vec<Vec<char>> = Vec::new();
    let w = |s: &str| s.chars().collect::<Vec<char>>();
    push_query_token(&mut tokens, w("model"));
    push_query_token(&mut tokens, w("is"));
    push_query_token(&mut tokens, w("which"));
    push_query_token(&mut tokens, w("model"));
    push_query_token(&mut tokens, w("wal"));
    assert_eq!(tokens, vec![w("model"), w("wal")]);
}

#[test]
fn chunks_are_pushed_trimmed_or_dropped_when_blank() {
    let mut chunks: Vec<PreparedChunk> = Vec::new();
    let mut current: Vec<char> = "  para one \n".chars().collect();
    push_chunk(&mut chunks, &mut current, 0, 12, 1, 1);
    assert!(current.is_empty());
    let mut blank: Vec<char> = " \n\n".chars().collect();
    push_chunk(&mut chunks, &mut blank, 12, 15, 2, 3);
    assert!(blank.is_empty());
    assert_eq!(chunks.len(), 1);
    assert_eq!(chunks[0].content, "para one");
    assert_eq!(chunks[0].chunk_index, 0);
    assert_eq!((chunks[0].start_byte, chunks[0].end_byte), (0, 12));
    assert_eq!(chunks[0].token_count_estimate, 2);
}
