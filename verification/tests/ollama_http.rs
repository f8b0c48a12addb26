use atlas::ollama_http::{
    ollama_error, parse_response, parse_u16_chars, refused_stream_message, request_text,
    OllamaResponse,
};

#[test]
fn frames_requests_with_the_body_length_in_bytes() {
    assert_eq!(
        request_text("GET", "/api/tags", None),
        "GET /api/tags HTTP/1.1\r\nHost: 127.0.0.1:11434\r\nAccept: application/json\r\nContent-Type: application/json\r\nContent-Length: 0\r\nConnection: close\r\n\r\n"
    );
    let body = r#"{"name":"llamé"}"#.to_string();
    let text = request_text("DELETE", "/api/delete", Some(body.clone()));
    assert!(text.starts_with("DELETE /api/delete HTTP/1.1\r\n"));
    assert!(text.contains(&format!("Content-Length: {}\r\n", body.len())));
    assert!(text.contains("Content-Length: 17\r\n"));
    assert!(text.ends_with("\r\nConnection: close\r\n\r\n{\"name\":\"llamé\"}"));
}

#[test]
fn reads_status_and_body_of_a_response() {
    let r = parse_response("HTTP/1.1 200 OK\r\nContent-Type: application/json\r\n\r\n{\"models\":[]}")
        .ok()
        .unwrap();
    assert_eq!(r.status_code, 200);
    assert_eq!(r.body, "{\"models\":[]}");
    let r = parse_response("HTTP/1.1 404 Not Found\r\n\r\n").ok().unwrap();
    assert_eq!(r.status_code, 404);
    assert_eq!(r.body, "");
    let r = parse_response("HTTP/1.0 +204\r\n\r\nA\r\n\r\nB").ok().unwrap();
    assert_eq!(r.status_code, 204);
    assert_eq!(r.body, "A\r\n\r\nB");
}

#[test]
fn refuses_responses_without_headers_end_or_status() {
    assert_eq!(
        parse_response("HTTP/1.1 200 OK\r\n").err().unwrap(),
        "Ollama returned an invalid HTTP response"
    );
    for raw in ["\r\n\r\nbody", "HTTP/1.1\r\n\r\n", "HTTP/1.1 abc\r\n\r\n", "HTTP/1.1 70000\r\n\r\n", "HTTP/1.1 -1\r\n\r\n"] {
        assert_eq!(
            parse_response(raw).err().unwrap(),
            "Ollama returned an invalid HTTP status"
        );
    }
}

#[test]
fn parses_status_codes_as_std_does() {
    for text in ["0", "200", "+7", "65535", "", "+", "-0", "65536", "2x", "00042"] {
        let chars: Vec<char> = text.chars().collect();
        assert_eq!(parse_u16_chars(&chars), text.parse::<u16>().ok(), "{text}");
    }
}

#[test]
fn explains_failed_requests() {
    let r = |code: u16, body: &str| OllamaResponse { status_code: code, body: body.to_string() };
    assert_eq!(ollama_error(&r(500, "  \n")), "Ollama request failed with status 500");
    assert_eq!(
        ollama_error(&r(404, r#"{"error":"model 'x' not found"}"#)),
        "model 'x' not found"
    );
    assert_eq!(ollama_error(&r(400, r#"{"error":42}"#)), r#"{"error":42}"#);
    assert_eq!(ollama_error(&r(502, "Bad gateway")), "Bad gateway");
    assert_eq!(
        refused_stream_message("404 Not Found", r#"{"error":"pull model manifest: file does not exist"}"#),
        "pull model manifest: file does not exist"
    );
    assert_eq!(
        refused_stream_message("503 Service Unavailable", ""),
        "Ollama request failed with status 503 Service Unavailable"
    );
}
