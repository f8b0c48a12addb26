//! The HTTP exchange with the local Ollama server: the request text, the
//! status and body read back from a raw response, and the message of a
//! failed request.
use vstd::prelude::*;
use crate::calendar::{all_digits, digits_value, parse_i64_chars};
use crate::digits::{dec_digits, push_dec};
use crate::search::{split_words, words};
use crate::text::{chars_of, extend_str, string_of, sub_chars, trim, trim_str, utf8_len};
use crate::tools::{
    get_string_field, json_object_entries, opt_view, parse_json_object,
    string_field, Arguments, ArgumentsView,
};

verus! {

// ---------------------------------------------------------------------------
// The request
// ---------------------------------------------------------------------------

/// The HTTP/1.1 request sent to Ollama: method, path, the JSON headers, the
/// body's length in bytes, a closed connection, then the body.
pub open spec fn request_text_of(method: Seq<char>, path: Seq<char>, body: Seq<char>) -> Seq<char> {
    method + " "@ + path
        + " HTTP/1.1\r\nHost: 127.0.0.1:11434\r\nAccept: application/json\r\nContent-Type: application/json\r\nContent-Length: "@
        + dec_digits(utf8_len(body)) + "\r\nConnection: close\r\n\r\n"@ + body
}

/// The request text for a method, a path and an optional body (none is an
/// empty body).
pub fn request_text(method: &str, path: &str, body: Option<String>) -> (r: String)
    ensures
        r@ == request_text_of(
            method@,
            path@,
            match body {
                Some(b) => b@,
                None => Seq::empty(),
            },
        ),
{
    let body = match body {
        Some(b) => b,
        None => String::new(),
    };
    let n = body.as_str().as_bytes().len();
    proof {
        crate::text::lemma_utf8_len_encode(body@);
    }
    let mut out = chars_of(method);
    extend_str(&mut out, " ");
    extend_str(&mut out, path);
    extend_str(
        &mut out,
        " HTTP/1.1\r\nHost: 127.0.0.1:11434\r\nAccept: application/json\r\nContent-Type: application/json\r\nContent-Length: ",
    );
    push_dec(&mut out, n as u64);
    extend_str(&mut out, "\r\nConnection: close\r\n\r\n");
    extend_str(&mut out, body.as_str());
    assert(out@ =~= request_text_of(method@, path@, body@));
    string_of(&out)
}

// ---------------------------------------------------------------------------
// The response
// ---------------------------------------------------------------------------

pub open spec fn blank_line_at(s: Seq<char>, i: int) -> bool {
    0 <= i && i + 4 <= s.len() && s[i] == '\r' && s[i + 1] == '\n' && s[i + 2] == '\r' && s[i + 3]
        == '\n'
}

/// The first position at or after `k` where an empty line ("\r\n\r\n")
/// ends the headers.
pub open spec fn blank_line_from(s: Seq<char>, k: int) -> Option<int>
    decreases s.len() - k,
{
    if k < 0 || k + 4 > s.len() {
        None
    } else if blank_line_at(s, k) {
        Some(k)
    } else {
        blank_line_from(s, k + 1)
    }
}

/// The first position at or after `k` of a '\n'.
pub open spec fn newline_from(s: Seq<char>, k: int) -> Option<int>
    decreases s.len() - k,
{
    if k < 0 || k >= s.len() {
        None
    } else if s[k] == '\n' {
        Some(k)
    } else {
        newline_from(s, k + 1)
    }
}

/// The first line of the headers, up to its '\n' (a '\r' before it is
/// whitespace, so it does not matter to the words read from the line); none
/// when there are no headers.
pub open spec fn first_line(headers: Seq<char>) -> Option<Seq<char>> {
    if headers.len() == 0 {
        None
    } else {
        match newline_from(headers, 0) {
            Some(i) => Some(headers.take(i)),
            None => Some(headers),
        }
    }
}

/// What `str::parse::<u16>` answers: an optional '+', then one or more
/// ASCII digits whose value is at most 65535.
pub open spec fn parse_u16(s: Seq<char>) -> Option<int> {
    let body = if s.len() > 0 && s[0] == '+' {
        s.drop_first()
    } else {
        s
    };
    if body.len() == 0 || !all_digits(body) || digits_value(body) > 65535 {
        None
    } else {
        Some(digits_value(body))
    }
}

/// The status code: the second word of the first header line.
pub open spec fn status_code_of(headers: Seq<char>) -> Option<int> {
    match first_line(headers) {
        None => None,
        Some(l) => if words(l).len() < 2 {
            None
        } else {
            parse_u16(words(l)[1])
        },
    }
}

/// A raw response read as its status code and body: the headers end at the
/// first empty line, and the first header line carries the code.
pub open spec fn response_of(raw: Seq<char>) -> Result<(int, Seq<char>), Seq<char>> {
    match blank_line_from(raw, 0) {
        None => Err("Ollama returned an invalid HTTP response"@),
        Some(i) => match status_code_of(raw.take(i)) {
            None => Err("Ollama returned an invalid HTTP status"@),
            Some(c) => Ok((c, raw.skip(i + 4))),
        },
    }
}

/// A response of the Ollama server.
pub struct OllamaResponse {
    pub status_code: u16,
    pub body: String,
}

pub open spec fn response_view(r: Result<OllamaResponse, String>) -> Result<(int, Seq<char>), Seq<char>> {
    match r {
        Ok(o) => Ok((o.status_code as int, o.body@)),
        Err(e) => Err(e@),
    }
}

proof fn lemma_blank_line_from(s: Seq<char>, k: int)
    ensures
        match blank_line_from(s, k) {
            Some(i) => k <= i && blank_line_at(s, i),
            None => true,
        },
    decreases s.len() - k,
{
    if !(k < 0 || k + 4 > s.len()) && !blank_line_at(s, k) {
        lemma_blank_line_from(s, k + 1);
    }
}

proof fn lemma_newline_from(s: Seq<char>, k: int)
    ensures
        match newline_from(s, k) {
            Some(i) => k <= i < s.len(),
            None => true,
        },
    decreases s.len() - k,
{
    if !(k < 0 || k >= s.len()) && s[k] != '\n' {
        lemma_newline_from(s, k + 1);
    }
}

proof fn lemma_digits_value_nonneg(s: Seq<char>)
    requires
        all_digits(s),
    ensures
        digits_value(s) >= 0,
    decreases s.len(),
{
    if s.len() > 0 {
        assert(all_digits(s.drop_last())) by {
            assert forall|k: int| 0 <= k < s.drop_last().len() implies #[trigger] crate::text::is_ascii_digit(
                s.drop_last()[k],
            ) by {
                assert(crate::text::is_ascii_digit(s[k]));
            }
        }
        lemma_digits_value_nonneg(s.drop_last());
        assert(crate::text::is_ascii_digit(s[s.len() - 1]));
    }
}

fn find_blank_line(v: &Vec<char>) -> (r: Option<usize>)
    ensures
        match r {
            Some(i) => blank_line_from(v@, 0) == Some(i as int),
            None => blank_line_from(v@, 0) is None,
        },
{
    let n = v.len();
    let mut i: usize = 0;
    while 4 <= n - i
        invariant
            n == v@.len(),
            i <= n,
            blank_line_from(v@, 0) == blank_line_from(v@, i as int),
        decreases n - i,
    {
        if v[i] == '\r' && v[i + 1] == '\n' && v[i + 2] == '\r' && v[i + 3] == '\n' {
            return Some(i);
        }
        i = i + 1;
    }
    None
}

fn find_newline(v: &Vec<char>) -> (r: Option<usize>)
    ensures
        match r {
            Some(i) => newline_from(v@, 0) == Some(i as int),
            None => newline_from(v@, 0) is None,
        },
{
    let n = v.len();
    let mut i: usize = 0;
    while i < n
        invariant
            n == v@.len(),
            i <= n,
            newline_from(v@, 0) == newline_from(v@, i as int),
        decreases n - i,
    {
        if v[i] == '\n' {
            return Some(i);
        }
        i = i + 1;
    }
    None
}

/// `str::parse::<u16>` on characters.
pub fn parse_u16_chars(s: &Vec<char>) -> (r: Option<u16>)
    ensures
        match r {
            Some(v) => parse_u16(s@) == Some(v as int),
            None => parse_u16(s@) is None,
        },
{
    if s.len() > 0 && s[0] == '-' {
        assert(!crate::text::is_ascii_digit(s@[0]));
        return None;
    }
    let ghost body = if s@.len() > 0 && s@[0] == '+' {
        s@.drop_first()
    } else {
        s@
    };
    proof {
        if body.len() > 0 && all_digits(body) {
            lemma_digits_value_nonneg(body);
        }
    }
    match parse_i64_chars(s) {
        Some(v) => {
            if 0 <= v && v <= 65535 {
                Some(v as u16)
            } else {
                None
            }
        },
        None => None,
    }
}

/// Reads a raw response: its status code and body.
pub fn parse_response(raw: &str) -> (r: Result<OllamaResponse, String>)
    ensures
        response_view(r) == response_of(raw@),
{
    let v = chars_of(raw);
    let end = match find_blank_line(&v) {
        Some(i) => i,
        None => {
            return Err(String::from_str("Ollama returned an invalid HTTP response"));
        },
    };
    proof {
        lemma_blank_line_from(v@, 0);
    }
    let headers = sub_chars(&v, 0, end);
    assert(headers@ =~= raw@.take(end as int));
    let line = if headers.len() == 0 {
        None
    } else {
        match find_newline(&headers) {
            Some(i) => {
                proof {
                    lemma_newline_from(headers@, 0);
                }
                let l = sub_chars(&headers, 0, i);
                assert(l@ =~= headers@.take(i as int));
                Some(l)
            },
            None => Some(headers),
        }
    };
    let code = match line {
        None => None,
        Some(l) => {
            let w = split_words(&l);
            if w.len() < 2 {
                None
            } else {
                assert(w@.map_values(|x: Vec<char>| x@)[1] == w@[1]@);
                parse_u16_chars(&w[1])
            }
        },
    };
    match code {
        None => Err(String::from_str("Ollama returned an invalid HTTP status")),
        Some(c) => {
            let body = sub_chars(&v, end + 4, v.len());
            assert(body@ =~= raw@.skip(end + 4));
            Ok(OllamaResponse { status_code: c, body: string_of(&body) })
        },
    }
}

// ---------------------------------------------------------------------------
// Failed requests
// ---------------------------------------------------------------------------

/// The `error` member of a JSON object body, when it is a string.
pub open spec fn json_error_field(body: Seq<char>) -> Option<Seq<char>> {
    match json_object_entries(body) {
        Some(es) => string_field(ArgumentsView::Object(es), "error"@),
        None => None,
    }
}

fn error_field(body: &str) -> (r: Option<String>)
    ensures
        opt_view(r) == json_error_field(body@),
{
    match parse_json_object(body) {
        Some(es) => get_string_field(&Arguments::Object(es), "error"),
        None => None,
    }
}

/// The message for a response outside the 2xx range: the status code when
/// the body is blank, else the body's `error` string, else the body itself.
pub open spec fn ollama_error_text(status_code: int, body: Seq<char>) -> Seq<char> {
    if trim(body).len() == 0 {
        "Ollama request failed with status "@ + dec_digits(status_code as nat)
    } else {
        match json_error_field(body) {
            Some(e) => e,
            None => body,
        }
    }
}

/// The message of a failed request.
pub fn ollama_error(response: &OllamaResponse) -> (r: String)
    ensures
        r@ == ollama_error_text(response.status_code as int, response.body@),
{
    if trim_str(response.body.as_str()).len() == 0 {
        let mut out = chars_of("Ollama request failed with status ");
        push_dec(&mut out, response.status_code as u64);
        return string_of(&out);
    }
    match error_field(response.body.as_str()) {
        Some(e) => e,
        None => string_of(&chars_of(response.body.as_str())),
    }
}

/// The message when a streamed request is refused: the body's `error`
/// string, else the status as its text names it (code and reason).
pub open spec fn refused_stream_text(status_text: Seq<char>, body: Seq<char>) -> Seq<char> {
    match json_error_field(body) {
        Some(e) => e,
        None => "Ollama request failed with status "@ + status_text,
    }
}

/// The message of a refused streamed request.
pub fn refused_stream_message(status_text: &str, body: &str) -> (r: String)
    ensures
        r@ == refused_stream_text(status_text@, body@),
{
    match error_field(body) {
        Some(e) => e,
        None => {
            let mut out = chars_of("Ollama request failed with status ");
            extend_str(&mut out, status_text);
            string_of(&out)
        },
    }
}

} // verus!
