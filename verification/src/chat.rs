//! Chats: titles, message input, search patterns, export names and the small
//! texts that describe chats and model downloads.
use vstd::prelude::*;
use crate::text::{
    ascii_alnum, chars_of, extend_chars, extend_str, is_ascii_alnum, is_whitespace, is_ws, lemma_trim_fixed,
    lemma_trim_idempotent, lower_char, str_eq, string_of, sub_chars, to_ascii_lower, trim, trim_str,
};

verus! {

// ---------------------------------------------------------------------------
// Titles
// ---------------------------------------------------------------------------

/// Longest title kept, in characters, before "..." is appended.
pub const MAX_TITLE_CHARS: usize = 64;

/// What `normalize_title` answers.
pub open spec fn normalized_title(title: Option<Seq<char>>) -> Seq<char> {
    let t = trim(
        match title {
            Some(t) => t,
            None => "New chat"@,
        },
    );
    if t.len() == 0 {
        "New chat"@
    } else if t.len() > MAX_TITLE_CHARS {
        t.take(MAX_TITLE_CHARS as int) + "..."@
    } else {
        t
    }
}

pub open spec fn opt_string_view(o: Option<String>) -> Option<Seq<char>> {
    match o {
        Some(s) => Some(s@),
        None => None,
    }
}

/// `normalize_title`: the trimmed title, "New chat" when it is missing or
/// blank, cut to 64 characters followed by "..." when longer.
pub fn normalize_title(title: Option<String>) -> (r: String)
    ensures
        r@ == normalized_title(opt_string_view(title)),
{
    let t = match &title {
        Some(t) => trim_str(t.as_str()),
        None => trim_str("New chat"),
    };
    proof {
        reveal_strlit("New chat");
        reveal_strlit("...");
    }
    if t.len() == 0 {
        return String::from_str("New chat");
    }
    if t.len() > MAX_TITLE_CHARS {
        let mut out = sub_chars(&t, 0, MAX_TITLE_CHARS);
        extend_str(&mut out, "...");
        assert(t@.subrange(0, MAX_TITLE_CHARS as int) =~= t@.take(MAX_TITLE_CHARS as int));
        return string_of(&out);
    }
    string_of(&t)
}

/// Normalising a title again changes nothing.
pub proof fn lemma_normalized_title_idempotent(title: Option<Seq<char>>)
    ensures
        normalized_title(Some(normalized_title(title))) == normalized_title(title),
{
    let raw = match title {
        Some(t) => t,
        None => "New chat"@,
    };
    let t = trim(raw);
    lemma_trim_idempotent(raw);
    reveal_strlit("New chat");
    reveal_strlit("...");
    lemma_trim_fixed("New chat"@);
    if t.len() > MAX_TITLE_CHARS {
        let u = t.take(MAX_TITLE_CHARS as int) + "..."@;
        assert(u[0] == t[0]);
        assert(t == trim(t));
        assert(t.len() > 0);
        crate::text::lemma_trim_ends(raw);
        lemma_trim_fixed(u);
        assert(u.take(MAX_TITLE_CHARS as int) =~= t.take(MAX_TITLE_CHARS as int));
    }
}

// ---------------------------------------------------------------------------
// Message input
// ---------------------------------------------------------------------------

/// What a message must be before it is stored: a trimmed role
/// among "user", "assistant" and "system", and trimmed, non-empty content.
pub open spec fn message_input(role: Seq<char>, content: Seq<char>) -> Result<
    (Seq<char>, Seq<char>),
    Seq<char>,
> {
    let r = trim(role);
    let c = trim(content);
    if !(r == "user"@ || r == "assistant"@ || r == "system"@) {
        Err("Invalid message role"@)
    } else if c.len() == 0 {
        Err("Message content cannot be empty"@)
    } else {
        Ok((r, c))
    }
}

pub open spec fn pair_result_view(r: Result<(String, String), String>) -> Result<
    (Seq<char>, Seq<char>),
    Seq<char>,
> {
    match r {
        Ok(p) => Ok((p.0@, p.1@)),
        Err(e) => Err(e@),
    }
}

/// The checks made on a role and a content before a message is stored;
/// on success, the trimmed role and content.
pub fn normalize_message_input(role: &str, content: &str) -> (r: Result<(String, String), String>)
    ensures
        pair_result_view(r) == message_input(role@, content@),
{
    let r = trim_str(role);
    let rs = string_of(&r);
    let known = str_eq(rs.as_str(), "user") || str_eq(rs.as_str(), "assistant") || str_eq(
        rs.as_str(),
        "system",
    );
    if !known {
        return Err(String::from_str("Invalid message role"));
    }
    let c = trim_str(content);
    if c.len() == 0 {
        return Err(String::from_str("Message content cannot be empty"));
    }
    Ok((rs, string_of(&c)))
}

// ---------------------------------------------------------------------------
// Escaping
// ---------------------------------------------------------------------------

pub open spec fn is_like_special(c: char) -> bool {
    c == '%' || c == '_' || c == '\\'
}

/// Each character, preceded by a backslash when `special` holds of it.
pub open spec fn escape_with(s: Seq<char>, special: spec_fn(char) -> bool) -> Seq<char>
    decreases s.len(),
{
    if s.len() == 0 {
        Seq::empty()
    } else {
        let c = s.last();
        escape_with(s.drop_last(), special) + if special(c) {
            seq!['\\', c]
        } else {
            seq![c]
        }
    }
}

/// What `escape_like_pattern` answers: `%`, `_` and `\` escaped with a
/// backslash, for a SQL `LIKE ... ESCAPE '\'` pattern.
pub open spec fn like_escaped(s: Seq<char>) -> Seq<char> {
    escape_with(s, |c: char| is_like_special(c))
}

/// `escape_like_pattern`.
pub fn escape_like_pattern(value: &str) -> (r: String)
    ensures
        r@ == like_escaped(value@),
{
    let v = chars_of(value);
    let mut out: Vec<char> = Vec::new();
    let mut i: usize = 0;
    while i < v.len()
        invariant
            i <= v@.len(),
            v@ == value@,
            out@ == like_escaped(v@.take(i as int)),
        decreases v@.len() - i,
    {
        let c = v[i];
        let ghost t = v@.take(i as int + 1);
        assert(t.drop_last() =~= v@.take(i as int));
        if c == '%' || c == '_' || c == '\\' {
            out.push('\\');
        }
        out.push(c);
        assert(out@ =~= like_escaped(t));
        i = i + 1;
    }
    assert(v@.take(v@.len() as int) =~= v@);
    string_of(&out)
}

pub open spec fn is_markdown_special(c: char) -> bool {
    c == '\\' || c == '`' || c == '*' || c == '_' || c == '{' || c == '}' || c == '[' || c == ']'
        || c == '(' || c == ')' || c == '#'
}

/// What `escape_markdown_inline` answers: Markdown punctuation escaped with
/// a backslash.
pub open spec fn markdown_escaped(s: Seq<char>) -> Seq<char> {
    escape_with(s, |c: char| is_markdown_special(c))
}

/// `escape_markdown_inline`.
pub fn escape_markdown_inline(value: &str) -> (r: String)
    ensures
        r@ == markdown_escaped(value@),
{
    let v = chars_of(value);
    let mut out: Vec<char> = Vec::new();
    let mut i: usize = 0;
    while i < v.len()
        invariant
            i <= v@.len(),
            v@ == value@,
            out@ == markdown_escaped(v@.take(i as int)),
        decreases v@.len() - i,
    {
        let c = v[i];
        let ghost t = v@.take(i as int + 1);
        assert(t.drop_last() =~= v@.take(i as int));
        if c == '\\' || c == '`' || c == '*' || c == '_' || c == '{' || c == '}' || c == '[' || c
            == ']' || c == '(' || c == ')' || c == '#' {
            out.push('\\');
        }
        out.push(c);
        assert(out@ =~= markdown_escaped(t));
        i = i + 1;
    }
    assert(v@.take(v@.len() as int) =~= v@);
    string_of(&out)
}

// ---------------------------------------------------------------------------
// Export file names
// ---------------------------------------------------------------------------

/// Longest sanitised name, in characters.
pub const MAX_FILE_NAME_CHARS: usize = 80;

pub open spec fn is_name_separator(c: char) -> bool {
    is_ws(c) || c == '-' || c == '_'
}

/// The scan of `sanitize_file_name`: ASCII letters and digits are kept in
/// lower case; a run of separators after kept text becomes one '-'; other
/// characters are dropped; nothing is added once 80 characters are there.
/// The flag says whether the last character added was a '-'.
pub open spec fn name_scan(s: Seq<char>) -> (Seq<char>, bool)
    decreases s.len(),
{
    if s.len() == 0 {
        (Seq::empty(), false)
    } else {
        let (out, sep) = name_scan(s.drop_last());
        let c = s.last();
        if out.len() >= MAX_FILE_NAME_CHARS {
            (out, sep)
        } else if is_ascii_alnum(c) {
            (out.push(lower_char(c)), false)
        } else if is_name_separator(c) && out.len() > 0 && !sep {
            (out.push('-'), true)
        } else {
            (out, sep)
        }
    }
}

/// `s` without its leading and trailing '-' characters.
pub open spec fn strip_dashes(s: Seq<char>) -> Seq<char>
    decreases s.len(),
{
    if s.len() == 0 {
        s
    } else if s[0] == '-' {
        strip_dashes(s.drop_first())
    } else if s.last() == '-' {
        strip_dashes(s.drop_last())
    } else {
        s
    }
}

/// What `sanitize_file_name` answers.
pub open spec fn sanitized_file_name(value: Seq<char>) -> Seq<char> {
    let s = strip_dashes(name_scan(trim(value)).0);
    if s.len() == 0 {
        "atlas-chat"@
    } else {
        s
    }
}

pub open spec fn is_file_name_char(c: char) -> bool {
    ('a' <= c <= 'z') || ('0' <= c <= '9') || c == '-'
}

proof fn lemma_name_scan_safe(s: Seq<char>)
    ensures
        name_scan(s).0.len() <= MAX_FILE_NAME_CHARS,
        forall|i: int| 0 <= i < name_scan(s).0.len() ==> is_file_name_char(#[trigger] name_scan(s).0[i]),
    decreases s.len(),
{
    if s.len() > 0 {
        lemma_name_scan_safe(s.drop_last());
        let (out, sep) = name_scan(s.drop_last());
        let c = s.last();
        if out.len() < MAX_FILE_NAME_CHARS && is_ascii_alnum(c) {
            let l = lower_char(c);
            if 'A' <= c <= 'Z' {
                let u = (c as u32) + 32;
                assert((u as char) as u32 == u);
            }
            assert(is_file_name_char(l));
            let o2 = out.push(l);
            assert forall|i: int| 0 <= i < o2.len() implies is_file_name_char(#[trigger] o2[i]) by {
                if i < out.len() {
                    assert(o2[i] == out[i]);
                }
            }
        } else if out.len() < MAX_FILE_NAME_CHARS && is_name_separator(c) && out.len() > 0 && !sep {
            let o2 = out.push('-');
            assert forall|i: int| 0 <= i < o2.len() implies is_file_name_char(#[trigger] o2[i]) by {
                if i < out.len() {
                    assert(o2[i] == out[i]);
                }
            }
        }
    }
}

proof fn lemma_strip_dashes_part(s: Seq<char>)
    ensures
        strip_dashes(s).len() <= s.len(),
        forall|i: int|
            0 <= i < strip_dashes(s).len() ==> exists|j: int|
                0 <= j < s.len() && #[trigger] strip_dashes(s)[i] == s[j],
        strip_dashes(s).len() > 0 ==> strip_dashes(s)[0] != '-' && strip_dashes(s).last() != '-',
    decreases s.len(),
{
    if s.len() > 0 {
        if s[0] == '-' {
            lemma_strip_dashes_part(s.drop_first());
            assert forall|i: int| 0 <= i < strip_dashes(s).len() implies exists|j: int|
                0 <= j < s.len() && #[trigger] strip_dashes(s)[i] == s[j] by {
                let j = choose|j: int|
                    0 <= j < s.drop_first().len() && strip_dashes(s.drop_first())[i] == s.drop_first()[j];
                assert(s[j + 1] == s.drop_first()[j]);
            }
        } else if s.last() == '-' {
            lemma_strip_dashes_part(s.drop_last());
            assert forall|i: int| 0 <= i < strip_dashes(s).len() implies exists|j: int|
                0 <= j < s.len() && #[trigger] strip_dashes(s)[i] == s[j] by {
                let j = choose|j: int|
                    0 <= j < s.drop_last().len() && strip_dashes(s.drop_last())[i] == s.drop_last()[j];
                assert(s[j] == s.drop_last()[j]);
            }
        } else {
            assert forall|i: int| 0 <= i < strip_dashes(s).len() implies exists|j: int|
                0 <= j < s.len() && #[trigger] strip_dashes(s)[i] == s[j] by {
                assert(strip_dashes(s)[i] == s[i]);
            }
        }
    }
}

/// An export name is safe: at most 80 characters, only lower-case ASCII
/// letters, digits and '-', never empty, and never starting or ending with
/// '-'.
pub proof fn lemma_sanitized_file_name_safe(value: Seq<char>)
    ensures
        ({
            let n = sanitized_file_name(value);
            &&& 0 < n.len() <= MAX_FILE_NAME_CHARS
            &&& forall|i: int| 0 <= i < n.len() ==> is_file_name_char(#[trigger] n[i])
            &&& n[0] != '-' && n.last() != '-'
        }),
{
    let scanned = name_scan(trim(value)).0;
    lemma_name_scan_safe(trim(value));
    lemma_strip_dashes_part(scanned);
    let s = strip_dashes(scanned);
    reveal_strlit("atlas-chat");
    if s.len() > 0 {
        assert forall|i: int| 0 <= i < s.len() implies is_file_name_char(#[trigger] s[i]) by {
            let j = choose|j: int| 0 <= j < scanned.len() && s[i] == scanned[j];
            assert(is_file_name_char(scanned[j]));
        }
    } else {
        let n = "atlas-chat"@;
        assert forall|i: int| 0 <= i < n.len() implies is_file_name_char(#[trigger] n[i]) by {}
    }
}

/// Removes leading and trailing '-' characters.
fn strip_dashes_exec(v: &Vec<char>) -> (r: Vec<char>)
    ensures
        r@ == strip_dashes(v@),
{
    let mut a: usize = 0;
    let mut b: usize = v.len();
    assert(v@.subrange(0, v@.len() as int) =~= v@);
    while a < b && v[a] == '-'
        invariant
            a <= b == v@.len(),
            strip_dashes(v@) == strip_dashes(v@.subrange(a as int, b as int)),
        decreases b - a,
    {
        let ghost s = v@.subrange(a as int, b as int);
        assert(s.drop_first() =~= v@.subrange(a as int + 1, b as int));
        a = a + 1;
    }
    while a < b && v[b - 1] == '-'
        invariant
            a <= b <= v@.len(),
            a < b ==> v@[a as int] != '-',
            strip_dashes(v@) == strip_dashes(v@.subrange(a as int, b as int)),
        decreases b - a,
    {
        let ghost s = v@.subrange(a as int, b as int);
        assert(s.drop_last() =~= v@.subrange(a as int, b as int - 1));
        assert(s[0] == v@[a as int]);
        b = b - 1;
    }
    let ghost s = v@.subrange(a as int, b as int);
    if a < b {
        assert(s[0] == v@[a as int]);
        assert(s.last() == v@[b - 1]);
    }
    sub_chars(v, a, b)
}

/// `sanitize_file_name`: a lower-case, dash-separated name of at most 80
/// characters for an exported chat, "atlas-chat" when nothing is left.
pub fn sanitize_file_name(value: &str) -> (r: String)
    ensures
        r@ == sanitized_file_name(value@),
{
    let v = trim_str(value);
    let mut out: Vec<char> = Vec::new();
    let mut sep = false;
    let mut i: usize = 0;
    while i < v.len() && out.len() < MAX_FILE_NAME_CHARS
        invariant
            i <= v@.len(),
            v@ == trim(value@),
            (out@, sep) == name_scan(v@.take(i as int)),
            out@.len() <= MAX_FILE_NAME_CHARS,
        decreases v@.len() - i,
    {
        let c = v[i];
        let ghost t = v@.take(i as int + 1);
        assert(t.drop_last() =~= v@.take(i as int));
        if ascii_alnum(c) {
            out.push(to_ascii_lower(c));
            sep = false;
        } else if (is_whitespace(c) || c == '-' || c == '_') && out.len() > 0 && !sep {
            out.push('-');
            sep = true;
        }
        i = i + 1;
    }
    proof {
        if i < v@.len() {
            lemma_scan_saturated(v@, i as int);
        }
        assert(v@.take(v@.len() as int) =~= v@);
    }
    let s = strip_dashes_exec(&out);
    proof {
        reveal_strlit("atlas-chat");
    }
    if s.len() == 0 {
        String::from_str("atlas-chat")
    } else {
        string_of(&s)
    }
}

/// Once the scan holds 80 characters, later characters change nothing.
proof fn lemma_scan_saturated(s: Seq<char>, i: int)
    requires
        0 <= i <= s.len(),
        name_scan(s.take(i)).0.len() >= MAX_FILE_NAME_CHARS,
    ensures
        name_scan(s) == name_scan(s.take(i)),
    decreases s.len() - i,
{
    if i < s.len() {
        let t = s.take(i + 1);
        assert(t.drop_last() =~= s.take(i));
        lemma_scan_saturated(s, i + 1);
    } else {
        assert(s.take(i) =~= s);
    }
}

/// Export formats.
#[derive(Clone, Copy, Debug, PartialEq, Eq, Structural)]
pub enum ChatExportFormat {
    Markdown,
    Json,
    PlainText,
}

/// `chat_export_format_parts`: the file extension and MIME type of a format.
pub fn chat_export_format_parts(format: ChatExportFormat) -> (r: (&'static str, &'static str))
    ensures
        (r.0@, r.1@) == chat_export_format_parts_spec(format),
{
    match format {
        ChatExportFormat::Markdown => ("md", "text/markdown;charset=utf-8"),
        ChatExportFormat::Json => ("json", "application/json;charset=utf-8"),
        ChatExportFormat::PlainText => ("txt", "text/plain;charset=utf-8"),
    }
}

/// What `role_label` answers.
pub open spec fn role_label_text(role: Seq<char>) -> Seq<char> {
    if role == "assistant"@ {
        "Assistant"@
    } else if role == "system"@ {
        "System"@
    } else if role == "user"@ {
        "User"@
    } else {
        "Message"@
    }
}

/// `role_label`: the heading used for a message role in exports.
pub fn role_label(role: &str) -> (r: &'static str)
    ensures
        r@ == role_label_text(role@),
{
    if str_eq(role, "assistant") {
        "Assistant"
    } else if str_eq(role, "system") {
        "System"
    } else if str_eq(role, "user") {
        "User"
    } else {
        "Message"
    }
}

/// The first `n` characters of `s` (all of them when it is shorter).
pub open spec fn prefix_chars(s: Seq<char>, n: nat) -> Seq<char> {
    if s.len() <= n {
        s
    } else {
        s.take(n as int)
    }
}

/// What the export names its file: the sanitised title, the first eight
/// characters of the chat id and the format's extension.
pub open spec fn export_file_name_text(title: Seq<char>, chat_id: Seq<char>, extension: Seq<char>) -> Seq<
    char,
> {
    sanitized_file_name(title) + "-"@ + prefix_chars(chat_id, 8) + "."@ + extension
}

/// The file name given to an exported chat.
pub fn export_file_name(title: &str, chat_id: &str, format: ChatExportFormat) -> (r: String)
    ensures
        r@ == export_file_name_text(title@, chat_id@, chat_export_format_parts_spec(format).0),
{
    let name = sanitize_file_name(title);
    let mut out = chars_of(name.as_str());
    extend_str(&mut out, "-");
    let id = chars_of(chat_id);
    let n = if id.len() <= 8 {
        id.len()
    } else {
        8
    };
    let short = sub_chars(&id, 0, n);
    assert(short@ =~= prefix_chars(chat_id@, 8));
    extend_chars(&mut out, &short);
    extend_str(&mut out, ".");
    let (extension, _) = chat_export_format_parts(format);
    extend_str(&mut out, extension);
    string_of(&out)
}

pub open spec fn chat_export_format_parts_spec(format: ChatExportFormat) -> (Seq<char>, Seq<char>) {
    match format {
        ChatExportFormat::Markdown => ("md"@, "text/markdown;charset=utf-8"@),
        ChatExportFormat::Json => ("json"@, "application/json;charset=utf-8"@),
        ChatExportFormat::PlainText => ("txt"@, "text/plain;charset=utf-8"@),
    }
}

// ---------------------------------------------------------------------------
// Durations and download labels
// ---------------------------------------------------------------------------

/// `n / 1_000_000` rounded to the nearest integer, halves away from zero.
pub open spec fn round_millis(n: int) -> int {
    let q = if n >= 0 {
        n / 1_000_000
    } else {
        -((-n) / 1_000_000)
    };
    let r = n - q * 1_000_000;
    if r >= 500_000 {
        q + 1
    } else if r <= -500_000 {
        q - 1
    } else {
        q
    }
}

/// `nanos_to_millis`: Ollama reports durations in nanoseconds; Atlas stores
/// milliseconds, rounded to the nearest one, halves away from zero.
pub fn nanos_to_millis(nanos: Option<i64>) -> (r: Option<i64>)
    ensures
        r == match nanos {
            Some(n) => Some(round_millis(n as int) as i64),
            None => None::<i64>,
        },
        nanos is Some ==> r->0 == round_millis(nanos->0 as int),
{
    match nanos {
        Some(n) => {
            let q = n / 1_000_000;
            let r = n % 1_000_000;
            let m = if r >= 500_000 {
                q + 1
            } else if r <= -500_000 {
                q - 1
            } else {
                q
            };
            Some(m)
        },
        None => None,
    }
}

/// What `model_pull_label` answers.
pub open spec fn model_pull_label_text(model: Seq<char>, status: Seq<char>) -> Seq<char> {
    if status == "success"@ {
        "Downloaded "@ + model
    } else {
        "Downloading "@ + model + ": "@ + status
    }
}

/// `model_pull_label`: the job label shown while a model downloads.
pub fn model_pull_label(model: &str, status: &str) -> (r: String)
    ensures
        r@ == model_pull_label_text(model@, status@),
{
    if str_eq(status, "success") {
        let mut out = chars_of("Downloaded ");
        extend_str(&mut out, model);
        return string_of(&out);
    }
    let mut out = chars_of("Downloading ");
    extend_str(&mut out, model);
    extend_str(&mut out, ": ");
    extend_str(&mut out, status);
    string_of(&out)
}

/// The progress label of a benchmark job while one of its prompts runs.
pub open spec fn benchmark_progress_label_text(
    model: Seq<char>,
    prompt_label: Seq<char>,
    current: int,
    total: int,
) -> Seq<char> {
    if current >= total {
        "Benchmarked "@ + model
    } else {
        "Benchmarking "@ + model + ": "@ + prompt_label
    }
}

/// The job label shown while a model is benchmarked.
pub fn benchmark_progress_label(model: &str, prompt_label: &str, current: i64, total: i64) -> (r:
    String)
    ensures
        r@ == benchmark_progress_label_text(model@, prompt_label@, current as int, total as int),
{
    if current >= total {
        let mut out = chars_of("Benchmarked ");
        extend_str(&mut out, model);
        return string_of(&out);
    }
    let mut out = chars_of("Benchmarking ");
    extend_str(&mut out, model);
    extend_str(&mut out, ": ");
    extend_str(&mut out, prompt_label);
    string_of(&out)
}

/// Durations are rounded to the nearest millisecond: the result is never
/// more than half a millisecond away.
pub proof fn lemma_round_millis_nearest(n: int)
    ensures
        -500_000 <= round_millis(n) * 1_000_000 - n <= 500_000,
{
    if n >= 0 {
        assert(n == (n / 1_000_000) * 1_000_000 + n % 1_000_000) by {
            vstd::arithmetic::div_mod::lemma_fundamental_div_mod(n, 1_000_000);
        }
    } else {
        let m = -n;
        assert(m == (m / 1_000_000) * 1_000_000 + m % 1_000_000) by {
            vstd::arithmetic::div_mod::lemma_fundamental_div_mod(m, 1_000_000);
        }
    }
}

} // verus!
