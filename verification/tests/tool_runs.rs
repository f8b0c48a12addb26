use atlas::domain::ToolCallStatus;
use atlas::indexing::{check_path, entry_action, validate_path_input, EntryAction, PathFacts};
use atlas::knowledge::{
    document_search_error, document_search_query, knowledge_prompt_setting, KnowledgePromptSetting,
};
use atlas::memory::{memory_prompt_setting, MemoryPromptSetting};
use atlas::tool_calls::{
    model_stats_summary, plan_tool_run, read_chunk_summary, require_workspace_scope,
    search_index_summary, tool_outcome, tool_resolution, workspace_scope, IndexHit,
    ToolOutcome, ToolPermissionDecision, ToolResolution, ToolRun, WorkspaceScope,
};

#[test]
fn only_pending_calls_are_resolved() {
    for status in [ToolCallStatus::Denied, ToolCallStatus::Succeeded, ToolCallStatus::Failed] {
        for decision in [
            ToolPermissionDecision::AllowOnce,
            ToolPermissionDecision::AlwaysAllowWorkspace,
            ToolPermissionDecision::Deny,
        ] {
            assert_eq!(tool_resolution(status, decision), ToolResolution::Unchanged);
        }
    }
    assert_eq!(
        tool_resolution(ToolCallStatus::Pending, ToolPermissionDecision::Deny),
        ToolResolution::Deny
    );
    assert_eq!(
        tool_resolution(ToolCallStatus::Pending, ToolPermissionDecision::AllowOnce),
        ToolResolution::Execute
    );
    assert_eq!(
        tool_resolution(ToolCallStatus::Pending, ToolPermissionDecision::AlwaysAllowWorkspace),
        ToolResolution::AllowWorkspaceThenExecute
    );
}

#[test]
fn plans_each_available_tool_with_its_trimmed_argument() {
    match plan_tool_run("search_index", r#"{"query":"  SQLite WAL "}"#) {
        Ok(ToolRun::SearchIndex { query }) => assert_eq!(query, "SQLite WAL"),
        _ => panic!("expected a search"),
    }
    match plan_tool_run("read_file_chunk", r#"{"chunk_id":"doc:0001"}"#) {
        Ok(ToolRun::ReadFileChunk { chunk_id }) => assert_eq!(chunk_id, "doc:0001"),
        _ => panic!("expected a chunk read"),
    }
    match plan_tool_run("get_model_stats", r#"{"model_name":" llama3.2:3b "}"#) {
        Ok(ToolRun::GetModelStats { model_name }) => assert_eq!(model_name, "llama3.2:3b"),
        _ => panic!("expected model statistics"),
    }
}

#[test]
fn refuses_unknown_tools_missing_arguments_and_bad_json() {
    assert_eq!(
        plan_tool_run("write_note", "{}").err().unwrap(),
        "write_note is not enabled in this MVP. Available tools: search_index, read_file_chunk, get_model_stats."
    );
    assert_eq!(
        plan_tool_run("search_index", r#"{"query":"   "}"#).err().unwrap(),
        "Missing required string argument: query"
    );
    assert_eq!(
        plan_tool_run("read_file_chunk", r#""doc:0001""#).err().unwrap(),
        "Missing required string argument: chunk_id"
    );
    assert_eq!(
        plan_tool_run("get_model_stats", r#"{"model_name":"bad name"}"#).err().unwrap(),
        "Model name contains invalid characters"
    );
    let expected = serde_json::from_str::<serde_json::Value>("{").unwrap_err().to_string();
    assert_eq!(plan_tool_run("search_index", "{").err().unwrap(), expected);
    assert_eq!(plan_tool_run("write_note", "{").err().unwrap(), expected);
}

#[test]
fn finds_the_workspace_a_permission_applies_to() {
    match workspace_scope("read_file_chunk", r#"{"chunk_id":" c1 "}"#) {
        Ok(WorkspaceScope::ChunkOwner { chunk_id }) => assert_eq!(chunk_id, "c1"),
        _ => panic!("expected the chunk's document"),
    }
    match workspace_scope("search_index", r#"{"query":"q","workspace_id":" ws-1 "}"#) {
        Ok(WorkspaceScope::Given { workspace_id }) => assert_eq!(workspace_id.as_deref(), Some("ws-1")),
        _ => panic!("expected a named workspace"),
    }
    match workspace_scope("search_index", r#"{"query":"q","workspace_id":"  "}"#) {
        Ok(WorkspaceScope::Given { workspace_id }) => assert_eq!(workspace_id, None),
        _ => panic!("expected no named workspace"),
    }
    assert!(matches!(workspace_scope("get_model_stats", "{}"), Ok(WorkspaceScope::NoScope)));
    assert_eq!(
        workspace_scope("read_file_chunk", "{}").err().unwrap(),
        "Missing required string argument: chunk_id"
    );
    assert_eq!(require_workspace_scope(Some("ws".to_string())), Ok("ws".to_string()));
    assert_eq!(
        require_workspace_scope(None),
        Err("This tool call has no indexed workspace scope.".to_string())
    );
}

#[test]
fn records_shortened_results_and_plain_errors() {
    match tool_outcome(Ok(format!("line\none {}", "y".repeat(600)))) {
        ToolOutcome::Succeeded { result_summary } => {
            assert_eq!(result_summary.chars().count(), 500);
            assert!(result_summary.starts_with("line one yyy"));
            assert!(result_summary.ends_with("..."));
        }
        _ => panic!("expected success"),
    }
    match tool_outcome(Err("Document chunk was not found.".to_string())) {
        ToolOutcome::Failed { error } => assert_eq!(error, "Document chunk was not found."),
        _ => panic!("expected failure"),
    }
}

fn hit(file: &str, chunk: &str, a: i64, b: i64) -> IndexHit {
    IndexHit { file_name: file.to_string(), chunk_id: chunk.to_string(), start_line: a, end_line: b }
}

#[test]
fn summarizes_index_searches() {
    assert_eq!(
        search_index_summary("wal", &vec![]),
        "No indexed chunks matched query \"wal\"."
    );
    assert_eq!(
        search_index_summary("wal", &vec![hit("notes.md", "d:0000", 1, 12)]),
        "Found 1 indexed chunk match for \"wal\": notes.md chunk d:0000 lines 1-12"
    );
    assert_eq!(
        search_index_summary(
            "wal",
            &vec![hit("notes.md", "d:0000", 1, 12), hit("db.rs", "e:0003", 40, 58)]
        ),
        "Found 2 indexed chunk matches for \"wal\": notes.md chunk d:0000 lines 1-12; db.rs chunk e:0003 lines 40-58"
    );
}

#[test]
fn summarizes_chunk_reads_and_model_statistics() {
    assert_eq!(
        read_chunk_summary("d:0001", "d", 3, 9, "héllo"),
        "Read approved indexed chunk d:0001 from document d lines 3-9. Content length: 5 chars. Full content is not stored in the tool-call log."
    );
    assert_eq!(
        model_stats_summary("llama3.2:3b", 4, 2, Some("31.5"), Some(1700000000123)),
        "llama3.2:3b has 4 completed generations, 2 completed benchmarks, average speed 31.5 tokens/s, last used 1700000000123."
    );
    assert_eq!(
        model_stats_summary("m", 0, 0, None, None),
        "m has 0 completed generations, 0 completed benchmarks, average speed no speed recorded, last used never."
    );
}

#[test]
fn checks_paths_to_index() {
    assert_eq!(validate_path_input("  /tmp/notes  "), Ok("/tmp/notes".to_string()));
    assert_eq!(
        validate_path_input(" \t "),
        Err("Enter a folder or file path to index.".to_string())
    );
    let facts = |symlink: bool, file: bool, dir: bool, name: Option<&str>| PathFacts {
        is_symlink: symlink,
        is_file: file,
        is_dir: dir,
        file_name: name.map(|n| n.to_string()),
    };
    assert_eq!(
        check_path(&facts(true, false, true, Some("docs"))).err().unwrap(),
        "Symlink roots are not indexed."
    );
    assert_eq!(
        check_path(&facts(false, false, false, Some("fifo"))).err().unwrap(),
        "Only folders and files can be indexed."
    );
    assert_eq!(
        check_path(&facts(false, true, false, Some("photo.png"))).err().unwrap(),
        "That file type is not supported. Supported extensions: md, txt, json, rs, ts, tsx, js, jsx, py, toml, yaml, yml"
    );
    let file = check_path(&facts(false, true, false, Some("README.MD"))).ok().unwrap();
    assert_eq!(file.name, "README.MD");
    assert!(file.is_file);
    let root = check_path(&facts(false, false, true, None)).ok().unwrap();
    assert_eq!(root.name, "Knowledge workspace");
    assert!(!root.is_file);
}

#[test]
fn walks_folders_without_hidden_ones_or_links() {
    assert_eq!(entry_action(true, false, true, "a.md", true), EntryAction::Skip);
    assert_eq!(entry_action(false, true, false, ".git", true), EntryAction::Skip);
    assert_eq!(entry_action(false, true, false, "src", true), EntryAction::Descend);
    assert_eq!(entry_action(false, false, true, "main.RS", true), EntryAction::Keep);
    assert_eq!(entry_action(false, false, true, "image.png", true), EntryAction::Skip);
    assert_eq!(entry_action(false, false, true, "n\u{fffd}.md", false), EntryAction::Skip);
    assert_eq!(entry_action(false, false, false, "socket.md", true), EntryAction::Skip);
}

#[test]
fn plans_document_searches() {
    assert!(document_search_query("what is the", None).is_none());
    let q = document_search_query("What does the model service do?", None).unwrap();
    assert_eq!(q.fts_query, "\"model\" OR \"service\"");
    assert_eq!(q.limit, 20);
    assert_eq!(document_search_query("model", Some(32)).unwrap().limit, 32);
    assert_eq!(
        document_search_error("\"model\"", "no such table: chunk_search"),
        "Could not search indexed documents. Query terms: \"model\". no such table: chunk_search"
    );
}

#[test]
fn prompt_settings_default_to_disabled() {
    let k = knowledge_prompt_setting(None, "chat-1");
    assert_eq!(k.conversation_id, "chat-1");
    assert!(!k.enabled_for_prompt);
    assert_eq!((k.created_at, k.updated_at), (0, 0));
    let stored = KnowledgePromptSetting {
        conversation_id: "chat-2".to_string(),
        enabled_for_prompt: true,
        created_at: 5,
        updated_at: 6,
    };
    let k = knowledge_prompt_setting(Some(stored), "chat-2");
    assert!(k.enabled_for_prompt);
    assert_eq!(k.updated_at, 6);
    let m = memory_prompt_setting(None, "chat-3");
    assert_eq!(m.conversation_id, "chat-3");
    assert!(!m.enabled_for_prompt);
    let stored = MemoryPromptSetting {
        conversation_id: "chat-4".to_string(),
        enabled_for_prompt: true,
        created_at: 1,
        updated_at: 2,
    };
    assert!(memory_prompt_setting(Some(stored), "chat-4").enabled_for_prompt);
}

#[test]
fn chunk_read_summaries_never_hold_the_content() {
    let a = read_chunk_summary("d:0002", "d", 1, 4, "secret plan");
    let b = read_chunk_summary("d:0002", "d", 1, 4, "public note");
    assert_eq!(a, b);
    assert!(!a.contains("secret"));
}

#[test]
fn denied_and_settled_calls_never_run() {
    let runs = |status, decision| {
        matches!(
            tool_resolution(status, decision),
            ToolResolution::Execute | ToolResolution::AllowWorkspaceThenExecute
        )
    };
    assert!(!runs(ToolCallStatus::Pending, ToolPermissionDecision::Deny));
    assert!(!runs(ToolCallStatus::Succeeded, ToolPermissionDecision::AllowOnce));
    assert!(runs(ToolCallStatus::Pending, ToolPermissionDecision::AllowOnce));
    assert!(plan_tool_run("run_shell", r#"{"command":"ls"}"#).is_err());
}
