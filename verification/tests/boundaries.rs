use atlas::calendar::{civil_from_days, days_from_civil, format_timestamp_ms, parse_date_start_ms};
use atlas::chunking::chunk_text;
use atlas::jobs::{benchmark_row_index, model_installed};
use atlas::search::{contains_like_pattern, tokenize_search_text};

fn strings(items: &[&str]) -> Vec<String> {
    items.iter().map(|s| s.to_string()).collect()
}

#[test]
fn timestamps_at_the_ends_of_i64() {
    assert_eq!(format_timestamp_ms(i64::MAX), "292278994-08-17T07:12:55.807Z");
    assert_eq!(format_timestamp_ms(i64::MIN), "-292275055-05-16T16:47:04.192Z");
}

#[test]
fn far_dates_round_trip() {
    let days = days_from_civil(1_000_000, 3, 1);
    assert_eq!(civil_from_days(days), (1_000_000, 3, 1));
    let days = days_from_civil(-1_000_000, 2, 29);
    assert_eq!(civil_from_days(days), (-1_000_000, 2, 29));
    assert_eq!(civil_from_days(days_from_civil(0, 3, 1)), (0, 3, 1));
    assert_eq!(days_from_civil(0, 3, 1), -719_468);
}

#[test]
fn date_filter_at_the_edge_of_milliseconds() {
    let ms = parse_date_start_ms("292278994-08-17", "from").unwrap();
    assert_eq!(format_timestamp_ms(ms), "292278994-08-17T00:00:00.000Z");
}

#[test]
fn chunk_lines_follow_the_source() {
    let content = "Title\n\n".to_string() + &"paragraph line\n".repeat(260);
    let chunks = chunk_text(&content);
    assert_eq!(chunks.len(), 2);
    assert_eq!((chunks[0].start_line, chunks[0].end_line), (1, 161));
    assert_eq!((chunks[0].start_byte, chunks[0].end_byte), (0, 2392));
    assert_eq!((chunks[1].start_line, chunks[1].end_line), (162, 263));
    assert_eq!((chunks[1].start_byte, chunks[1].end_byte), (2392, 3907));

    let unterminated = chunk_text("one\ntwo\nthree");
    assert_eq!(unterminated.len(), 1);
    assert_eq!((unterminated[0].start_line, unterminated[0].end_line), (1, 3));
}

#[test]
fn ascii_words_split_at_punctuation() {
    let text: Vec<char> = "Hello, World_2! ok".chars().collect();
    let terms: Vec<String> = tokenize_search_text(&text)
        .into_iter()
        .map(|t| t.into_iter().collect())
        .collect();
    assert_eq!(terms, strings(&["hello", "world_2", "ok"]));
    assert_eq!(contains_like_pattern("Rust 100%"), "%rust 100\\%%");
}

#[test]
fn installed_models_are_matched_by_full_name() {
    let names = strings(&["llama3.2:3b", "qwen2.5:7b"]);
    assert!(model_installed(&names, "qwen2.5:7b"));
    assert!(!model_installed(&names, "qwen2.5"));
    assert!(!model_installed(&Vec::new(), "llama3.2:3b"));
}

#[test]
fn benchmark_rows_are_found_by_prompt_type() {
    let rows = strings(&["short", "long", "short"]);
    assert_eq!(benchmark_row_index(&rows, "short"), Some(0));
    assert_eq!(benchmark_row_index(&rows, "long"), Some(1));
    assert_eq!(benchmark_row_index(&rows, "code"), None);
}
