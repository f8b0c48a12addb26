use atlas::chunking::chunk_text;
use atlas::context::{assemble, preview, AssemblyInput, ChatMessage};
use atlas::domain::GenerationContextItemType;
use atlas::indexing::extension_for_path;
use atlas::search::parse_snippet_parts;
use atlas::text::truncate_inline;

fn message(id: i64, role: &str, content: &str) -> ChatMessage {
    ChatMessage {
        id,
        chat_id: "chat-1".to_string(),
        role: role.to_string(),
        content: content.to_string(),
        created_at: id,
    }
}

fn input<'a>(messages: &'a [ChatMessage]) -> AssemblyInput<'a> {
    AssemblyInput {
        model_name: "llama3.2:3b",
        messages,
        prompt_summary: None,
        prompt_memories: &[],
        document_sources: &[],
        knowledge_enabled: false,
    }
}

#[test]
fn assembly_succeeds_whenever_a_user_message_exists() {
    let messages = vec![
        message(1, "user", "First question"),
        message(2, "assistant", "An answer"),
        message(3, "user", "Follow-up"),
        message(4, "assistant", "Partial"),
    ];
    let ctx = assemble(input(&messages)).ok().unwrap();
    assert_eq!(ctx.messages[0].role, "system");
    assert_eq!(ctx.messages.last().unwrap().content, "Follow-up");
    let n = ctx.items.len();
    for (i, item) in ctx.items.iter().enumerate() {
        assert_eq!(item.order_index, i as i64);
    }
    assert_eq!(ctx.items[n - 1].item_type, GenerationContextItemType::ModelOptions);
    assert_eq!(ctx.items[n - 2].item_type, GenerationContextItemType::UserMessage);
    assert_eq!(ctx.items[n - 2].item_id.as_deref(), Some("3"));
    let users = ctx
        .items
        .iter()
        .filter(|i| i.item_type == GenerationContextItemType::UserMessage)
        .count();
    assert_eq!(users, 1);
    let priors: Vec<_> = ctx
        .items
        .iter()
        .filter(|i| i.item_type == GenerationContextItemType::PriorMessage)
        .map(|i| i.item_id.clone().unwrap())
        .collect();
    assert_eq!(priors, vec!["1".to_string(), "2".to_string()]);
    assert!(!ctx
        .items
        .iter()
        .any(|i| i.item_type == GenerationContextItemType::TruncationNotice));
}

#[test]
fn assembly_without_a_user_message_is_refused() {
    let messages = vec![message(1, "assistant", "Hello"), message(2, "system", "Note")];
    assert_eq!(
        assemble(input(&messages)).err(),
        Some("Chat has no user message to send to Ollama".to_string())
    );
    assert!(assemble(input(&[])).is_err());
}

#[test]
fn chunks_cover_every_visible_character() {
    let content = "  Title\n\n body one\n\t\nlast line";
    let chunks = chunk_text(content);
    assert!(!chunks.is_empty());
    for (p, c) in content.char_indices() {
        if !c.is_whitespace() {
            assert!(chunks
                .iter()
                .any(|k| k.start_byte <= p as i64 && (p as i64) < k.end_byte));
        }
    }
    assert!(chunk_text(" \n\t \r\n ").is_empty());
    assert!(chunk_text("").is_empty());
}

#[test]
fn snippets_alternate_and_plain_text_stays_whole() {
    let parts = parse_snippet_parts("a \u{1f}rust\u{1e} b");
    let view: Vec<(String, bool)> = parts.into_iter().map(|p| (p.text, p.is_match)).collect();
    assert_eq!(
        view,
        vec![("a ".to_string(), false), ("rust".to_string(), true), (" b".to_string(), false)]
    );
    assert!(parse_snippet_parts("").is_empty());
    let plain = parse_snippet_parts("no markers\u{1e} here");
    assert_eq!(plain.len(), 1);
    assert_eq!(plain[0].text, "no markers\u{1e} here");
    assert!(!plain[0].is_match);
}

#[test]
fn shortened_texts_are_tidy_and_bounded() {
    let t = truncate_inline("  alpha \t beta\n\ngamma   delta  ", 12);
    assert_eq!(t, "alpha bet...");
    assert!(t.chars().count() <= 12);
    let t = truncate_inline("  ab   cd ", 6);
    assert_eq!(t, "ab cd");
    let p = preview(&"word ".repeat(100).chars().collect());
    let p: String = p.into_iter().collect();
    assert_eq!(p.chars().count(), 180);
    assert!(p.ends_with("..."));
    let p: String = preview(&"  a\n\tb  ".chars().collect()).into_iter().collect();
    assert_eq!(p, "a b");
}

#[test]
fn extensions_are_read_from_the_file_name() {
    assert_eq!(extension_for_path("README.MD"), Some("md".to_string()));
    assert_eq!(extension_for_path("a.pdf"), None);
    assert_eq!(extension_for_path("Makefile"), None);
    assert_eq!(extension_for_path("config.Yml"), Some("yml".to_string()));
}
