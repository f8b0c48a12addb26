use atlas::calendar::{
    civil_from_days, date_filter_fits, days_from_civil, format_timestamp_ms, parse_date_parts,
    parse_date_start_ms,
};
use atlas::chat::{
    benchmark_progress_label, chat_export_format_parts, escape_markdown_inline, export_file_name,
    model_pull_label, nanos_to_millis, normalize_message_input, normalize_title, role_label,
    sanitize_file_name, ChatExportFormat,
};
use atlas::context::{assemble, AssemblyInput, ChatMessage};
use atlas::chunking::PreparedChunk;
use atlas::diagnostics::{
    copy_summary, diagnostics_error, diagnostics_job, shm_path, wal_path, ModelSpeedLine,
    SummaryFacts,
};
use atlas::domain::{GenerationContextItemType, JobStatus, JobType, MemoryScopeType};
use atlas::indexing::{
    chunk_id, chunk_ids, document_unchanged, extension_for_path, normalize_line_endings,
    prepare_contents, select_prompt_chunks, StoredDocument,
};
use atlas::jobs::{
    finished_job_result, is_terminal, pull_job_ending, queued_label, suite_rows, BenchmarkAction,
    BenchmarkEvent, BenchmarkRun, Job, PromptOutcome, PullEnding,
};
use atlas::memory::prepare_memory;
use atlas::model::{ollama_status_label, get_status, OllamaModel, OllamaStatusKind};
use atlas::search::{
    build_search_fts_query, contains_like_pattern, parse_search_query, parse_snippet_parts,
    plan_search, query_dates_fit, search_limit, tokenize_search_text,
};
use atlas::summary::{prepare_summary, SummarySourceMessage};
use atlas::tools::{parse_model_tool_request, string_argument, truncate_summary, visible_assistant_content};
use atlas::workflow::{
    pull_step, storage_failure_reply, ChatStream, ChatStreamAction, ChatStreamEvent,
    PullStreamAction, PullStreamEvent,
};

fn chars(s: &str) -> Vec<char> {
    s.chars().collect()
}

fn job(status: JobStatus, error_message: Option<&str>) -> Job {
    Job {
        id: "job-1".to_string(),
        job_type: JobType::ModelPull,
        status,
        progress_current: None,
        progress_total: None,
        label: "Queued download for llama3.2:3b".to_string(),
        payload_json: None,
        result_json: None,
        error_message: error_message.map(|m| m.to_string()),
        created_at: 1,
        started_at: None,
        completed_at: None,
        cancelled_at: None,
    }
}

#[test]
fn enum_names_round_trip() {
    for job_type in [
        JobType::ChatGeneration,
        JobType::ModelPull,
        JobType::ModelDelete,
        JobType::ExportConversation,
        JobType::DocumentImport,
        JobType::EmbeddingIndex,
        JobType::ModelBenchmark,
        JobType::ConversationSummary,
    ] {
        assert_eq!(JobType::from_str(job_type.as_str()), Ok(job_type));
    }
    assert_eq!(
        JobStatus::from_str("paused").unwrap_err(),
        "Unknown job status: paused"
    );
    assert_eq!(
        GenerationContextItemType::from_str(GenerationContextItemType::TruncationNotice.as_str()),
        Ok(GenerationContextItemType::TruncationNotice)
    );
}

#[test]
fn calendar_round_trips_dates() {
    let days = days_from_civil(2024, 2, 29);
    assert_eq!(days, 19782);
    assert_eq!(civil_from_days(days), (2024, 2, 29));
    assert_eq!(civil_from_days(-1), (1969, 12, 31));
    assert_eq!(civil_from_days(0), (1970, 1, 1));
    assert_eq!(format_timestamp_ms(-1), "1969-12-31T23:59:59.999Z");
}

#[test]
fn date_filters_start_at_midnight_of_their_day() {
    let ms = parse_date_start_ms("2024-02-29", "from").unwrap();
    assert_eq!(ms, 1_709_164_800_000);
    assert_eq!(format_timestamp_ms(ms), "2024-02-29T00:00:00.000Z");
    assert_eq!(
        parse_date_start_ms("2023-02-29", "from").unwrap_err(),
        "Invalid from: date. Use from:YYYY-MM-DD."
    );
    assert_eq!(
        parse_date_start_ms("2024-13-01", "before").unwrap_err(),
        "Invalid before: date. Use before:YYYY-MM-DD."
    );
    assert!(parse_date_start_ms("2024-01", "from").is_err());
    assert_eq!(parse_date_parts("+2024-01-02"), Some((2024, 1, 2)));
    assert_eq!(parse_date_parts("2024-01-02-03"), None);
    assert_eq!(parse_date_parts("2024-0x-02"), None);
    assert!(date_filter_fits("2024-01-02"));
    assert!(!date_filter_fits("9999999999999-01-01"));
}

#[test]
fn titles_normalise_once_and_for_all() {
    let long = format!("  {}  ", "word ".repeat(30));
    let once = normalize_title(Some(long));
    assert_eq!(normalize_title(Some(once.clone())), once);
    assert_eq!(once.chars().count(), 67);
    assert!(once.ends_with("..."));
}

#[test]
fn export_names_are_safe() {
    let name = sanitize_file_name("  Ünïcode -- Notes__2024!!  ");
    assert_eq!(name, "ncode-notes-2024");
    assert!(name
        .chars()
        .all(|c| c.is_ascii_lowercase() || c.is_ascii_digit() || c == '-'));
    let long = sanitize_file_name(&"ab ".repeat(60));
    assert!(long.chars().count() <= 80);
    assert!(!long.ends_with('-'));
    assert_eq!(
        export_file_name("Export Check", "abcdef123456", ChatExportFormat::Markdown),
        "export-check-abcdef12.md"
    );
    assert_eq!(
        chat_export_format_parts(ChatExportFormat::PlainText),
        ("txt", "text/plain;charset=utf-8")
    );
}

#[test]
fn durations_round_to_the_nearest_millisecond() {
    assert_eq!(nanos_to_millis(Some(499_999)), Some(0));
    assert_eq!(nanos_to_millis(Some(500_000)), Some(1));
    assert_eq!(nanos_to_millis(Some(-1_500_000)), Some(-2));
    assert_eq!(nanos_to_millis(Some(2_000_000)), Some(2));
}

#[test]
fn chat_texts_and_labels() {
    assert_eq!(role_label("assistant"), "Assistant");
    assert_eq!(role_label("tool"), "Message");
    assert_eq!(escape_markdown_inline("a_b*[c]#"), r"a\_b\*\[c\]\#");
    assert_eq!(model_pull_label("llama3.2:3b", "success"), "Downloaded llama3.2:3b");
    assert_eq!(
        model_pull_label("llama3.2:3b", "pulling manifest"),
        "Downloading llama3.2:3b: pulling manifest"
    );
    assert_eq!(
        benchmark_progress_label("m", "JSON output", 3, 5),
        "Benchmarking m: JSON output"
    );
    assert_eq!(benchmark_progress_label("m", "JSON output", 5, 5), "Benchmarked m");
    assert_eq!(queued_label("download", "m"), "Queued download for m");
}

#[test]
fn message_input_is_checked_before_storage() {
    assert_eq!(
        normalize_message_input(" user ", "  hi "),
        Ok(("user".to_string(), "hi".to_string()))
    );
    assert_eq!(
        normalize_message_input("tool", "hi").unwrap_err(),
        "Invalid message role"
    );
    assert_eq!(
        normalize_message_input("system", "   ").unwrap_err(),
        "Message content cannot be empty"
    );
}

#[test]
fn memories_and_summaries_are_prepared() {
    assert_eq!(
        prepare_memory(MemoryScopeType::Project, Some("p1"), "  Keep it local. "),
        Ok("Keep it local.".to_string())
    );
    assert_eq!(
        prepare_memory(MemoryScopeType::Global, Some("p1"), "Keep it local.").unwrap_err(),
        "Global memories cannot have a scope ID."
    );
    assert_eq!(
        prepare_memory(MemoryScopeType::Global, None, &"x".repeat(4001)).unwrap_err(),
        "Memory must be 4000 characters or fewer."
    );
    let sources = vec![
        SummarySourceMessage { id: 3, role: "user".to_string(), content: "a".to_string() },
        SummarySourceMessage { id: 8, role: "assistant".to_string(), content: "b".to_string() },
    ];
    let draft = prepare_summary("  Topic  ", &sources).ok().unwrap();
    assert_eq!(draft.summary, "Topic");
    assert_eq!((draft.source_message_start_id, draft.source_message_end_id), (Some(3), Some(8)));
}

fn message(id: i64, role: &str, content: &str) -> ChatMessage {
    ChatMessage {
        id,
        chat_id: "chat-1".to_string(),
        role: role.to_string(),
        content: content.to_string(),
        created_at: id,
    }
}

#[test]
fn assembled_prompts_respect_the_budget() {
    let mut messages = Vec::new();
    for id in 1..45 {
        messages.push(message(id, "user", &"older context ".repeat(900)));
    }
    messages.push(message(45, "assistant", "An answer"));
    messages.push(message(46, "user", "What changed?"));
    messages.push(message(47, "assistant", "Trailing assistant text"));
    let assembled = assemble(AssemblyInput {
        model_name: "llama3.2:3b",
        messages: &messages,
        prompt_summary: None,
        prompt_memories: &[],
        document_sources: &[],
        knowledge_enabled: true,
    })
    .unwrap();

    let kept = assembled
        .items
        .iter()
        .filter(|item| item.item_type == GenerationContextItemType::PriorMessage)
        .count();
    let notice = assembled
        .items
        .iter()
        .find(|item| item.item_type == GenerationContextItemType::TruncationNotice)
        .unwrap();
    let omitted = 45 - kept;
    assert_eq!(
        notice.label,
        format!("Omitted {omitted} older prior messages to stay under the context budget")
    );
    for (index, item) in assembled.items.iter().enumerate() {
        assert_eq!(item.order_index, index as i64);
    }
    assert_eq!(
        assembled.items.last().unwrap().item_type,
        GenerationContextItemType::ModelOptions
    );
    assert_eq!(assembled.messages.last().unwrap().content, "What changed?");
    let options = assembled.items.last().unwrap();
    assert!(options
        .metadata_json
        .as_deref()
        .unwrap()
        .contains("\"max_context_token_estimate\":\"12000\""));
    let budget_used: i64 = assembled
        .items
        .iter()
        .filter(|item| item.item_type == GenerationContextItemType::PriorMessage)
        .map(|item| item.token_count_estimate)
        .sum();
    assert!(budget_used <= 12_000);
}

#[test]
fn search_queries_read_filters_and_terms() {
    let parsed =
        parse_search_query("model:llama3 has:code Rust_lang search from:2024-01-01").unwrap();
    assert_eq!(parsed.model_filter.as_deref(), Some("llama3"));
    assert!(parsed.has_code);
    assert_eq!(parsed.from_ms, Some(1_704_067_200_000));
    assert_eq!(parsed.terms, vec!["rust_lang".to_string(), "search".to_string()]);
    assert_eq!(build_search_fts_query(&parsed), "\"rust_lang\"* \"search\"*");
    let plan = plan_search(&parsed, Some(500)).unwrap();
    assert_eq!(plan.limit, 100);
    assert!(!plan.include_titles);

    let chat_only = parse_search_query("chat:Release-Notes").unwrap();
    assert_eq!(chat_only.terms, vec!["release".to_string(), "notes".to_string()]);
    let plan = plan_search(&chat_only, None).unwrap();
    assert_eq!(plan.chat_pattern.as_deref(), Some("%release-notes%"));
    assert_eq!(plan.limit, 30);

    assert!(plan_search(&parse_search_query("model:x").unwrap(), None).is_none());
    assert_eq!(
        parse_search_query("before:2024-02-30").err().unwrap(),
        "Invalid before: date. Use before:YYYY-MM-DD."
    );
    assert_eq!(search_limit(Some(0)), 1);
    assert!(query_dates_fit("from:2024-01-01 rust"));
}

#[test]
fn search_terms_use_unicode_letters() {
    let terms = tokenize_search_text(&chars("Été_2024 rocks!"));
    let terms = terms.into_iter().map(|t| t.into_iter().collect::<String>()).collect::<Vec<_>>();
    assert_eq!(terms, vec!["Été_2024".to_string(), "rocks".to_string()]);
    assert_eq!(contains_like_pattern("ÄB_"), "%äb\\_%");
}

#[test]
fn snippets_split_at_match_markers() {
    let parts = parse_snippet_parts("a\u{1f}b\u{1e}c\u{1e}d\u{1f}\u{1e}");
    let view = parts
        .iter()
        .map(|p| (p.text.as_str(), p.is_match))
        .collect::<Vec<_>>();
    assert_eq!(view, vec![("a", false), ("b", true), ("c\u{1e}d", false)]);
}

#[test]
fn tool_requests_in_other_shapes() {
    let request = parse_model_tool_request(
        r#"{"atlas_tool_call":["search_index",{"query":"  many   spaces  "}]}"#,
    )
    .unwrap();
    assert_eq!(request.arguments_summary, "query: \"many spaces\"");
    assert_eq!(request.arguments_json, r#"{"query":"  many   spaces  "}"#);

    let fenced = "```json\n{\"tool_name\":\"Get_Model_Stats\",\"arguments\":{\"model_name\":\"m\"}}\n```";
    let request = parse_model_tool_request(fenced).unwrap();
    assert_eq!(request.tool_name, "get_model_stats");
    assert_eq!(
        visible_assistant_content(fenced),
        "Requested Atlas tool: get_model_stats (model_name: m)"
    );

    let mixed = "Let me check {\"tool_name\":\"do_thing\",\"arguments\":{\"b\":1,\"a\":\"x\"}} now";
    let request = parse_model_tool_request(mixed).unwrap();
    assert_eq!(request.arguments_summary, "argument keys: a, b");
    assert_eq!(request.arguments_json, r#"{"a":"<redacted>","b":"<redacted>"}"#);
    assert_eq!(visible_assistant_content(mixed), mixed);

    assert!(parse_model_tool_request(r#"{"tool_name":"bad name!"}"#).is_none());
    let no_args = parse_model_tool_request(r#"{"tool_name":"export_chat"}"#).unwrap();
    assert_eq!(no_args.arguments_summary, "conversation_id: missing; format: missing");
    assert_eq!(no_args.arguments_json, "{}");
    assert_eq!(truncate_summary(&"x ".repeat(400)).chars().count(), 500);
}

#[test]
fn required_string_arguments() {
    let request = parse_model_tool_request(r#"{"tool_name":"search_index","arguments":{"query":"  "}}"#);
    assert!(request.is_some());
    let args = atlas::tools::Arguments::Object(vec![(
        "query".to_string(),
        atlas::tools::JsonItem::Str("  wal ".to_string()),
    )]);
    assert_eq!(string_argument(&args, "query"), Ok("wal".to_string()));
    assert_eq!(
        string_argument(&args, "chunk_id").unwrap_err(),
        "Missing required string argument: chunk_id"
    );
}

#[test]
fn indexing_reads_supported_text_files() {
    assert_eq!(extension_for_path("notes.MD"), Some("md".to_string()));
    assert_eq!(extension_for_path(".md"), None);
    assert_eq!(extension_for_path("archive.tar.gz"), None);
    assert_eq!(extension_for_path("Makefile"), None);
    assert_eq!(chunk_id("doc", 7), "doc:0007");
    assert_eq!(
        normalize_line_endings(&chars("a\r\nb\r\r\n")),
        chars("a\nb\r\n")
    );
    assert!(prepare_contents(vec![b'a', 0, b'b']).is_none());
    assert!(prepare_contents(vec![0xff, 0xfe]).is_none());
    assert!(prepare_contents(b"   \r\n  ".to_vec()).is_none());
    let prepared = prepare_contents(b"line one\r\nline two\r\n".to_vec()).unwrap();
    assert_eq!(prepared.chunks.len(), 1);
    assert_eq!(prepared.chunks[0].content, "line one\nline two");
    assert_eq!(prepared.content_hash, atlas::digits::hash_bytes(b"line one\r\nline two\r\n"));
    let stored = Some(StoredDocument {
        deleted: false,
        content_hash: prepared.content_hash.clone(),
        chunk_count: 1,
    });
    assert!(document_unchanged(&stored, &prepared.content_hash));
    assert!(!document_unchanged(&None, &prepared.content_hash));
}

#[test]
fn prompt_chunks_are_limited_per_document() {
    let ids = ["a", "a", "a", "b", "c", "c", "d", "e", "f", "g", "h"]
        .iter()
        .map(|s| s.to_string())
        .collect::<Vec<_>>();
    assert_eq!(select_prompt_chunks(&ids), vec![0, 1, 3, 4, 5, 6, 7, 8]);
}

#[test]
fn finished_jobs_are_reported() {
    assert!(finished_job_result(job(JobStatus::Succeeded, None)).is_ok());
    assert_eq!(
        finished_job_result(job(JobStatus::Cancelled, None)).err().unwrap(),
        "Job cancelled"
    );
    assert_eq!(
        finished_job_result(job(JobStatus::Failed, None)).err().unwrap(),
        "Job failed"
    );
    assert_eq!(
        finished_job_result(job(JobStatus::Failed, Some("disk full"))).err().unwrap(),
        "disk full"
    );
    assert!(is_terminal(JobStatus::Failed));
    assert!(!is_terminal(JobStatus::Cancelling));
    assert_eq!(pull_job_ending(&Ok(()), true), PullEnding::Cancelled);
    assert_eq!(
        pull_job_ending(&Err("Job cancelled".to_string()), false),
        PullEnding::Cancelled
    );
    assert_eq!(pull_job_ending(&Err("boom".to_string()), false), PullEnding::Failed);
    assert_eq!(pull_job_ending(&Ok(()), false), PullEnding::Succeeded);
}

#[test]
fn benchmark_runs_follow_the_suite() {
    let rows = suite_rows();
    assert_eq!(rows.len(), 5);
    assert_eq!(rows[3].prompt_type, "json_output");
    assert_eq!(rows[0].prompt_text_hash.len(), 16);

    let mut run = BenchmarkRun::new(
        "m".to_string(),
        vec!["a".to_string(), "b".to_string()],
        vec!["A".to_string(), "B".to_string()],
    );
    assert!(matches!(
        run.step(BenchmarkEvent::ModelChecked { installed: true }),
        BenchmarkAction::PreparePrompt { index: 0 }
    ));
    match run.step(BenchmarkEvent::PromptReady { row_found: true, cancelled: false }) {
        BenchmarkAction::RunPrompt { index, current, total, label } => {
            assert_eq!((index, current, total), (0, 0, 2));
            assert_eq!(label, "Benchmarking m: A");
        }
        _ => panic!("expected the first prompt to run"),
    }
    match run.step(BenchmarkEvent::PromptFinished { outcome: PromptOutcome::Completed }) {
        BenchmarkAction::RecordCompleted { current, finished, .. } => {
            assert_eq!(current, 1);
            assert!(!finished);
        }
        _ => panic!("expected the prompt to be recorded"),
    }
    assert!(matches!(
        run.step(BenchmarkEvent::PromptReady { row_found: true, cancelled: true }),
        BenchmarkAction::CancelJob
    ));
    assert!(matches!(
        run.step(BenchmarkEvent::ModelChecked { installed: true }),
        BenchmarkAction::Ignore
    ));

    let mut missing = BenchmarkRun::new("m".to_string(), vec!["a".to_string()], vec!["A".to_string()]);
    match missing.step(BenchmarkEvent::ModelChecked { installed: false }) {
        BenchmarkAction::FailJob { message } => {
            assert_eq!(message, "Model is not installed. Install it before benchmarking.")
        }
        _ => panic!("expected the job to fail"),
    }
    let mut norow = BenchmarkRun::new("m".to_string(), vec!["a".to_string()], vec!["A".to_string()]);
    norow.step(BenchmarkEvent::ModelChecked { installed: true });
    match norow.step(BenchmarkEvent::PromptReady { row_found: false, cancelled: false }) {
        BenchmarkAction::Abort { message } => {
            assert_eq!(message, "Benchmark row was not found for a")
        }
        _ => panic!("expected an abort"),
    }
}

#[test]
fn chat_streams_collect_the_answer() {
    let mut stream = ChatStream::new();
    assert!(matches!(
        stream.step(ChatStreamEvent::Line { text: "   \n".to_string() }),
        ChatStreamAction::ReadNext { stamp_first_token: false }
    ));
    match stream.step(ChatStreamEvent::Line { text: " {\"x\":1}\n".to_string() }) {
        ChatStreamAction::Parse { line } => assert_eq!(line, "{\"x\":1}"),
        _ => panic!("expected a line to parse"),
    }
    assert!(matches!(
        stream.step(ChatStreamEvent::Chunk { content: Some(String::new()), done: false }),
        ChatStreamAction::ReadNext { stamp_first_token: false }
    ));
    assert!(matches!(
        stream.step(ChatStreamEvent::Chunk { content: Some("  Hel".to_string()), done: false }),
        ChatStreamAction::ReadNext { stamp_first_token: true }
    ));
    assert!(matches!(
        stream.step(ChatStreamEvent::Chunk { content: Some("lo ".to_string()), done: false }),
        ChatStreamAction::ReadNext { stamp_first_token: false }
    ));
    match stream.step(ChatStreamEvent::Chunk { content: None, done: true }) {
        ChatStreamAction::Finish { stamp_first_token, from_chunk, result } => {
            assert!(!stamp_first_token);
            assert!(from_chunk);
            assert_eq!(result, Ok("Hello".to_string()));
        }
        _ => panic!("expected the stream to finish"),
    }

    let mut cancelled = ChatStream::new();
    cancelled.step(ChatStreamEvent::Chunk { content: Some(" partial ".to_string()), done: false });
    match cancelled.step(ChatStreamEvent::Cancelled) {
        ChatStreamAction::Fail { message, content, cancelled } => {
            assert_eq!(message, "Generation cancelled");
            assert_eq!(content, "partial");
            assert!(cancelled);
        }
        _ => panic!("expected a cancelled stream"),
    }
    let mut empty = ChatStream::new();
    match empty.step(ChatStreamEvent::EndOfStream) {
        ChatStreamAction::Finish { result, .. } => {
            assert_eq!(result, Err("Ollama returned an empty response".to_string()))
        }
        _ => panic!("expected the stream to finish"),
    }
    assert_eq!(storage_failure_reply(true, "db".to_string()), "Generation cancelled");
    assert_eq!(storage_failure_reply(false, "db".to_string()), "db");
}

#[test]
fn download_streams_report_progress() {
    match pull_step(PullStreamEvent::Progress {
        status: None,
        completed: Some(1),
        total: Some(2),
        error: None,
    }) {
        PullStreamAction::Report { status, last, .. } => {
            assert_eq!(status, "Downloading model");
            assert!(!last);
        }
        _ => panic!("expected a progress report"),
    }
    match pull_step(PullStreamEvent::Progress {
        status: Some("success".to_string()),
        completed: None,
        total: None,
        error: None,
    }) {
        PullStreamAction::Report { last, .. } => assert!(last),
        _ => panic!("expected a progress report"),
    }
    match pull_step(PullStreamEvent::Progress {
        status: Some("pulling".to_string()),
        completed: None,
        total: None,
        error: Some("no space".to_string()),
    }) {
        PullStreamAction::Stop { result } => assert_eq!(result, Err("no space".to_string())),
        _ => panic!("expected the download to stop"),
    }
    match pull_step(PullStreamEvent::Cancelled) {
        PullStreamAction::Stop { result } => assert_eq!(result, Err("Job cancelled".to_string())),
        _ => panic!("expected the download to stop"),
    }
    assert!(matches!(pull_step(PullStreamEvent::EndOfStream), PullStreamAction::Stop { result: Ok(()) }));
}

#[test]
fn model_status_from_a_failed_listing() {
    let status = get_status(Err("refused".to_string()), Some("  ".to_string()));
    assert_eq!(status.status, OllamaStatusKind::Unavailable);
    assert_eq!(status.selected_model, None);
    assert_eq!(status.error.as_deref(), Some("refused"));
    let status = get_status(
        Ok(vec![OllamaModel { name: "m".to_string(), size: 1 }]),
        Some(" m ".to_string()),
    );
    assert_eq!(status.status, OllamaStatusKind::RunningWithModels);
    assert_eq!(ollama_status_label(status.status), "running_with_models");
}

#[test]
fn diagnostics_summary_lines() {
    let facts = SummaryFacts {
        app_version: "1.1.0".to_string(),
        generated_at: 42,
        ollama_status: OllamaStatusKind::SelectedModelMissing,
        installed_models: 2,
        selected_model: None,
        database_size_bytes: 4096,
        wal_size_bytes: 0,
        user_version: 6,
        integrity_check: "ok".to_string(),
        running_jobs: 1,
        recent_failed_jobs: 0,
        queued: 0,
        queue_running: 0,
        queue_cancelling: 0,
        queue_failed: 3,
        indexed_document_count: 5,
        chunk_count: 9,
        workspace_count: 1,
        model_speeds: vec![ModelSpeedLine {
            model_name: "m".to_string(),
            generation_speed: "12.5 tok/s".to_string(),
            benchmark_speed: "no benchmark speed".to_string(),
        }],
        recent_errors: 2,
    };
    assert_eq!(
        copy_summary(&facts),
        "Atlas diagnostics (1.1.0)\nGenerated at: 42\nOllama: selected_model_missing\nInstalled models: 2\nActive model: none\nDatabase path: redacted\nDatabase: 4096 bytes, WAL 0 bytes, schema v6, integrity ok\nJobs: 1 running, 0 recent failed\nEmbedding queue: queued 0, running 0, cancelling 0, failed 3\nIndexed documents: 5 active docs, 9 chunks, 1 workspaces\nModel speed:\n- m: 12.5 tok/s, no benchmark speed\nRecent backend errors: 2 present; messages omitted from copied summary"
    );
    assert_eq!(wal_path("/tmp/atlas.sqlite3"), "/tmp/atlas.sqlite3-wal");
    assert_eq!(shm_path("/tmp/atlas.sqlite3"), "/tmp/atlas.sqlite3-shm");
}

#[test]
fn diagnostics_job_puts_label_and_error_on_one_shortened_line() {
    let mut j = job(JobStatus::Failed, Some("line one\n  line   two"));
    j.label = "a\tb".repeat(100);
    let d = diagnostics_job(j);
    assert_eq!(d.id, "job-1");
    assert_eq!(d.status, JobStatus::Failed);
    assert_eq!(d.label.chars().count(), 160);
    assert!(d.label.starts_with("a ba ba b"));
    assert!(d.label.ends_with("..."));
    assert_eq!(d.error_message.as_deref(), Some("line one line two"));
    assert_eq!(d.created_at, 1);
}

#[test]
fn diagnostics_error_shortens_long_messages() {
    let e = diagnostics_error("backend".to_string(), "  save   chat ", &"x".repeat(400), 42);
    assert_eq!(e.source, "backend");
    assert_eq!(e.label, "save chat");
    assert_eq!(e.message, format!("{}...", "x".repeat(297)));
    assert_eq!(e.occurred_at, 42);
}

#[test]
fn chunk_ids_follow_the_chunk_indices() {
    let chunk = |i: i64| PreparedChunk {
        chunk_index: i,
        content: "text".to_string(),
        start_byte: 0,
        end_byte: 4,
        start_line: 1,
        end_line: 1,
        token_count_estimate: 1,
    };
    let ids = chunk_ids("doc-7", &vec![chunk(0), chunk(1), chunk(12)]);
    assert_eq!(ids, vec![chunk_id("doc-7", 0), chunk_id("doc-7", 1), chunk_id("doc-7", 12)]);
    assert_eq!(ids[2], "doc-7:0012");
}
