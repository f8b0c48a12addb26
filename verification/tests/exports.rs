use atlas::export::{
    render_chat_markdown, render_chat_text, ExportChat, ExportDuration, ExportMessage, ExportRun,
};

fn duration(ms: i64) -> ExportDuration {
    ExportDuration { ms, seconds: format!("{:.2}", ms as f64 / 1_000.0) }
}

fn export_check_chat() -> (ExportChat, Vec<ExportMessage>) {
    let chat = ExportChat {
        id: "abcdef123456".to_string(),
        title: "Export Check".to_string(),
        created_at: 0,
        updated_at: 1_700_000_000_123,
        message_count: 2,
    };
    let messages = vec![
        ExportMessage {
            role: "user".to_string(),
            content: "Summarize this.".to_string(),
            created_at: 0,
            run: None,
        },
        ExportMessage {
            role: "assistant".to_string(),
            content: "Partial answer".to_string(),
            created_at: 1_000,
            run: Some(ExportRun {
                model_name: "llama3.2:3b".to_string(),
                status: "failed".to_string(),
                total_duration: Some(duration(1_500)),
                load_duration: Some(duration(25)),
                prompt_eval_count: Some(12),
                eval_count: Some(6),
                speed: Some(format!("{:.1}", 60.0_f64)),
                error_message: Some("Generation failed".to_string()),
            }),
        },
    ];
    (chat, messages)
}

#[test]
fn render_chat_export_includes_metrics_and_failed_states() {
    let (chat, messages) = export_check_chat();
    let markdown = render_chat_markdown(&chat, &messages, 2_000);
    assert!(markdown.contains("# Export Check"));
    assert!(markdown.contains("- Model: `llama3.2:3b`"));
    assert!(markdown.contains("- Status: failed"));
    assert!(markdown.contains("- Speed: 60.0 tokens/s"));
    assert!(markdown.contains("- Error: Generation failed"));

    let text = render_chat_text(&chat, &messages, 2_000);
    assert!(text.contains("Generation: model: llama3.2:3b; status: failed"));
}

#[test]
fn markdown_export_lays_out_every_part() {
    let (chat, messages) = export_check_chat();
    assert_eq!(
        render_chat_markdown(&chat, &messages, 2_000),
        "# Export Check\n\n\
         - Chat ID: `abcdef123456`\n\
         - Created: 1970-01-01T00:00:00.000Z\n\
         - Updated: 2023-11-14T22:13:20.123Z\n\
         - Exported: 1970-01-01T00:00:02.000Z\n\
         - Messages: 2\n\n\
         ## User - 1970-01-01T00:00:00.000Z\n\nSummarize this.\n\n\
         ## Assistant - 1970-01-01T00:00:01.000Z\n\nPartial answer\n\n\
         Generation details:\n\n\
         - Model: `llama3.2:3b`\n\
         - Status: failed\n\
         - Total duration: 1.50 s\n\
         - Load duration: 25 ms\n\
         - Prompt tokens: 12\n\
         - Completion tokens: 6\n\
         - Speed: 60.0 tokens/s\n\
         - Error: Generation failed\n\n\n"
    );
}

#[test]
fn text_export_lays_out_every_part() {
    let (chat, messages) = export_check_chat();
    assert_eq!(
        render_chat_text(&chat, &messages, 2_000),
        "Export Check\n============\n\n\
         Chat ID: abcdef123456\n\
         Created: 1970-01-01T00:00:00.000Z\n\
         Updated: 2023-11-14T22:13:20.123Z\n\
         Exported: 1970-01-01T00:00:02.000Z\n\
         Messages: 2\n\n\
         [User | 1970-01-01T00:00:00.000Z]\nSummarize this.\n\n\
         [Assistant | 1970-01-01T00:00:01.000Z]\nPartial answer\n\
         Generation: model: llama3.2:3b; status: failed; total: 1.50 s; prompt tokens: 12; completion tokens: 6; speed: 60.0 tokens/s; error: Generation failed\n\n"
    );
}

#[test]
fn exports_of_empty_chats_say_so() {
    let chat = ExportChat {
        id: "c".to_string(),
        title: String::new(),
        created_at: 0,
        updated_at: 0,
        message_count: 0,
    };
    let markdown = render_chat_markdown(&chat, &vec![], 0);
    assert!(markdown.starts_with("# \n\n"));
    assert!(markdown.ends_with("- Messages: 0\n\n_No messages._\n"));
    let text = render_chat_text(&chat, &vec![], 0);
    assert!(text.starts_with("\n=\n\n"));
    assert!(text.ends_with("Messages: 0\n\nNo messages.\n"));
}

#[test]
fn markdown_titles_are_escaped_and_roles_labelled() {
    let chat = ExportChat {
        id: "c".to_string(),
        title: "*Plan* [v2]".to_string(),
        created_at: 0,
        updated_at: 0,
        message_count: 1,
    };
    let messages = vec![ExportMessage {
        role: "tool".to_string(),
        content: "ok".to_string(),
        created_at: 0,
        run: Some(ExportRun {
            model_name: "m".to_string(),
            status: "completed".to_string(),
            total_duration: None,
            load_duration: None,
            prompt_eval_count: None,
            eval_count: None,
            speed: None,
            error_message: None,
        }),
    }];
    let markdown = render_chat_markdown(&chat, &messages, 0);
    assert!(markdown.starts_with("# \\*Plan\\* \\[v2\\]\n\n"));
    assert!(markdown.contains("## Message - 1970-01-01T00:00:00.000Z\n\nok\n\nGeneration details:\n\n- Model: `m`\n- Status: completed\n\n\n"));
    let text = render_chat_text(&chat, &messages, 0);
    assert!(text.contains("[Message | 1970-01-01T00:00:00.000Z]\nok\nGeneration: model: m; status: completed\n\n"));
    assert!(text.starts_with("*Plan* [v2]\n===========\n"));
}
