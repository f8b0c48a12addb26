use atlas::calendar::format_timestamp_ms;
use atlas::chat::{escape_like_pattern, nanos_to_millis, normalize_title, sanitize_file_name};
use atlas::chunking::chunk_text;
use atlas::context::{assemble, AssemblyInput, ChatMessage};
use atlas::digits::{hash_bytes, prompt_text_hash};
use atlas::domain::MemoryScopeType;
use atlas::indexing::validate_path_input;
use atlas::knowledge::build_fts_query;
use atlas::memory::{normalize_memory_content, validate_scope, Memory};
use atlas::model::{build_ollama_status, validate_ollama_model_name, OllamaModel, OllamaStatusKind};
use atlas::summary::{normalize_summary, source_message_range, ConversationSummary, SummarySourceMessage};
use atlas::tools::{parse_model_tool_request, visible_assistant_content};

fn message(id: i64, role: &str, content: &str) -> ChatMessage {
    ChatMessage {
        id,
        chat_id: "chat-1".to_string(),
        role: role.to_string(),
        content: content.to_string(),
        created_at: id,
    }
}

fn test_model(name: &str) -> OllamaModel {
    OllamaModel {
        name: name.to_string(),
        size: 1024,
    }
}

#[test]
fn prompt_text_hash_is_stable() {
    assert_eq!(
        prompt_text_hash("benchmark prompt"),
        prompt_text_hash("benchmark prompt")
    );
    assert_ne!(
        prompt_text_hash("benchmark prompt"),
        prompt_text_hash("different prompt")
    );
}

#[test]
fn assemble_context_keeps_latest_user_and_truncates_old_messages() {
    let mut messages = Vec::new();
    for id in 1..45 {
        messages.push(message(id, "user", &"older context ".repeat(900)));
    }
    messages.push(message(45, "user", "What changed?"));

    let assembled = assemble(AssemblyInput {
        model_name: "llama3.2:3b",
        messages: &messages,
        prompt_summary: None,
        prompt_memories: &[],
        document_sources: &[],
        knowledge_enabled: false,
    })
    .unwrap();

    assert!(assembled
        .items
        .iter()
        .any(|item| item.item_type.as_str() == "truncation_notice"));
    assert!(assembled
        .items
        .iter()
        .any(|item| item.item_type.as_str() == "user_message"
            && item.item_id.as_deref() == Some("45")));
    assert_eq!(assembled.messages.last().unwrap().content, "What changed?");
}

#[test]
fn assemble_context_records_summary_metadata() {
    let messages = vec![message(1, "user", "Summarize this.")];
    let summary = ConversationSummary {
        id: "summary-1".to_string(),
        conversation_id: "chat-1".to_string(),
        summary: "Current topic: context assembly".to_string(),
        source_message_start_id: Some(1),
        source_message_end_id: Some(1),
        model_name: "manual".to_string(),
        version: 2,
        enabled_for_prompt: true,
        created_at: 1,
        updated_at: 2,
    };

    let assembled = assemble(AssemblyInput {
        model_name: "llama3.2:3b",
        messages: &messages,
        prompt_summary: Some(&summary),
        prompt_memories: &[],
        document_sources: &[],
        knowledge_enabled: false,
    })
    .unwrap();

    let summary_item = assembled
        .items
        .iter()
        .find(|item| item.item_type.as_str() == "summary")
        .unwrap();
    assert_eq!(summary_item.item_id.as_deref(), Some("summary-1"));
    assert!(summary_item.label.contains("v2"));
}

#[test]
fn assemble_context_rejects_chat_without_user_message() {
    let messages = vec![message(1, "assistant", "Hello")];

    assert!(assemble(AssemblyInput {
        model_name: "llama3.2:3b",
        messages: &messages,
        prompt_summary: None,
        prompt_memories: &[],
        document_sources: &[],
        knowledge_enabled: false,
    })
    .is_err());
}

#[test]
fn assemble_context_includes_memory_metadata_items() {
    let messages = vec![message(1, "user", "Use memory?")];
    let memory = Memory {
        id: "memory-1".to_string(),
        scope_type: MemoryScopeType::Global,
        scope_id: None,
        content: "User prefers local-only storage.".to_string(),
        source_conversation_id: None,
        source_message_id: None,
        pinned: true,
        archived_at: None,
        created_at: 1,
        updated_at: 1,
    };

    let assembled = assemble(AssemblyInput {
        model_name: "llama3.2:3b",
        messages: &messages,
        prompt_summary: None,
        prompt_memories: &[memory],
        document_sources: &[],
        knowledge_enabled: false,
    })
    .unwrap();

    assert!(assembled
        .items
        .iter()
        .any(|item| item.item_type.as_str() == "memory"
            && item.item_id.as_deref() == Some("memory-1")));
}

#[test]
fn chunk_text_keeps_source_ranges() {
    let content = "Title\n\n".to_string() + &"paragraph line\n".repeat(260);
    let chunks = chunk_text(&content);

    assert!(chunks.len() > 1);
    assert_eq!(chunks[0].start_line, 1);
    assert!(chunks[0].end_byte > chunks[0].start_byte);
    assert!(chunks.iter().all(|chunk| !chunk.content.trim().is_empty()));
}

#[test]
fn fts_query_uses_non_stopword_terms() {
    assert_eq!(
        build_fts_query("What does the model service do?"),
        "\"model\" OR \"service\""
    );
}

#[test]
fn hash_bytes_is_deterministic() {
    assert_eq!(hash_bytes(b"atlas"), hash_bytes(b"atlas"));
    assert_ne!(hash_bytes(b"atlas"), hash_bytes(b"Atlas"));
}

#[test]
fn normalize_memory_content_trims_and_rejects_empty_text() {
    assert_eq!(
        normalize_memory_content("  Use SQLite for local data.  ").unwrap(),
        "Use SQLite for local data."
    );
    assert_eq!(
        normalize_memory_content("   ").unwrap_err(),
        "Memory cannot be empty."
    );
}

#[test]
fn validate_scope_requires_ids_only_for_scoped_memory() {
    assert!(validate_scope(MemoryScopeType::Global, None).is_ok());
    assert!(validate_scope(MemoryScopeType::Global, Some("chat-1")).is_err());
    assert!(validate_scope(MemoryScopeType::Conversation, Some("chat-1")).is_ok());
    assert!(validate_scope(MemoryScopeType::Conversation, None).is_err());
}

#[test]
fn source_message_range_uses_first_and_last_message_ids() {
    let messages = vec![
        SummarySourceMessage {
            id: 4,
            role: "user".to_string(),
            content: "First".to_string(),
        },
        SummarySourceMessage {
            id: 9,
            role: "assistant".to_string(),
            content: "Second".to_string(),
        },
    ];

    assert_eq!(source_message_range(&messages), (Some(4), Some(9)));
    assert_eq!(source_message_range(&[]), (None, None));
}

#[test]
fn normalize_summary_rejects_blank_text() {
    assert_eq!(
        normalize_summary("   ").unwrap_err(),
        "Summary cannot be empty."
    );
}

#[test]
fn parses_wrapped_tool_request() {
    let request = parse_model_tool_request(
        r#"{"atlas_tool_call":{"tool_name":"search_index","arguments":{"query":"SQLite WAL"}}}"#,
    )
    .unwrap();

    assert_eq!(request.tool_name, "search_index");
    assert_eq!(request.arguments_summary, "query: \"SQLite WAL\"");
}

#[test]
fn visible_content_summarizes_tool_only_response() {
    assert_eq!(
        visible_assistant_content(r#"{"tool_name":"read_file_chunk","arguments":{"chunk_id":"abc"}}"#),
        "Requested Atlas tool: read_file_chunk (chunk_id: abc)"
    );
}

#[test]
fn ignores_regular_json_without_tool_name() {
    assert!(parse_model_tool_request(r#"{"answer":"no tool"}"#).is_none());
}

#[test]
fn redacts_private_write_arguments_from_log_json() {
    let request = parse_model_tool_request(
        r#"{"tool_name":"create_note","arguments":{"title":"Private","content":"secret body"}}"#,
    )
    .unwrap();

    assert_eq!(
        request.arguments_summary,
        "title: Private; content: 11 chars"
    );
    assert_eq!(
        request.arguments_json,
        r#"{"content":"<redacted 11 chars>","title":"Private"}"#
    );
}

#[test]
fn normalize_title_defaults_for_missing_or_blank_titles() {
    assert_eq!(normalize_title(None), "New chat");
    assert_eq!(normalize_title(Some("   ".to_string())), "New chat");
}

#[test]
fn normalize_title_trims_and_truncates_long_titles() {
    assert_eq!(
        normalize_title(Some("  Focused local workspace  ".to_string())),
        "Focused local workspace"
    );

    let long_title = "a".repeat(65);
    assert_eq!(
        normalize_title(Some(long_title)),
        format!("{}...", "a".repeat(64))
    );
}

#[test]
fn escape_like_pattern_escapes_sql_like_wildcards() {
    assert_eq!(
        escape_like_pattern(r"100%_local\chat"),
        r"100\%\_local\\chat"
    );
}

#[test]
fn validate_ollama_model_name_accepts_common_local_model_names() {
    assert_eq!(
        validate_ollama_model_name(" llama3.2:3b ").unwrap(),
        "llama3.2:3b"
    );
}

#[test]
fn validate_ollama_model_name_rejects_empty_or_unsafe_names() {
    assert!(validate_ollama_model_name("   ").is_err());
    assert!(validate_ollama_model_name("llama 3").is_err());
    assert!(validate_ollama_model_name("bad\"name").is_err());
    assert!(validate_ollama_model_name(r"bad\name").is_err());
}

#[test]
fn nanos_to_millis_rounds_ollama_nanosecond_durations() {
    assert_eq!(nanos_to_millis(Some(1_500_000)), Some(2));
    assert_eq!(nanos_to_millis(Some(999_999)), Some(1));
    assert_eq!(nanos_to_millis(None), None);
}

#[test]
fn format_timestamp_ms_outputs_utc_iso_8601() {
    assert_eq!(
        format_timestamp_ms(0),
        "1970-01-01T00:00:00.000Z".to_string()
    );
    assert_eq!(
        format_timestamp_ms(1_700_000_000_123),
        "2023-11-14T22:13:20.123Z".to_string()
    );
}

#[test]
fn sanitize_file_name_keeps_exports_safe_and_readable() {
    assert_eq!(
        sanitize_file_name("  Quarterly Chat: Plan / Draft?  "),
        "quarterly-chat-plan-draft"
    );
    assert_eq!(sanitize_file_name("////"), "atlas-chat");
}

#[test]
fn build_ollama_status_reports_unavailable_with_error_details() {
    let status = build_ollama_status(
        Vec::new(),
        Some("llama3.2:3b".to_string()),
        Some("connection refused".to_string()),
    );

    assert_eq!(status.status, OllamaStatusKind::Unavailable);
    assert_eq!(status.selected_model.as_deref(), Some("llama3.2:3b"));
    assert_eq!(status.error.as_deref(), Some("connection refused"));
}

#[test]
fn build_ollama_status_distinguishes_empty_and_ready_model_lists() {
    let empty_status = build_ollama_status(Vec::new(), None, None);
    assert_eq!(empty_status.status, OllamaStatusKind::RunningWithoutModels);

    let ready_status = build_ollama_status(vec![test_model("llama3.2:3b")], None, None);
    assert_eq!(ready_status.status, OllamaStatusKind::RunningWithModels);
}

#[test]
fn build_ollama_status_reports_missing_selected_model() {
    let status = build_ollama_status(
        vec![test_model("llama3.2:1b")],
        Some("llama3.2:3b".to_string()),
        None,
    );

    assert_eq!(status.status, OllamaStatusKind::SelectedModelMissing);
}

#[test]
fn validate_path_rejects_empty_paths() {
    assert!(validate_path_input("   ").is_err());
}
