//! Chat exports as Markdown and as plain text.  The two measurements that
//! are written with decimals (a duration in seconds, a speed in tokens per
//! second) come already written out; everything else is laid out here.
use vstd::prelude::*;
use crate::calendar::{format_timestamp_ms, timestamp_text};
use crate::chat::{escape_markdown_inline, markdown_escaped, role_label, role_label_text};
use crate::digits::{int_text, push_int};
use crate::text::{chars_of, extend_chars, extend_str, join_chars, join_with, string_of, views};

verus! {

// ---------------------------------------------------------------------------
// What an export shows
// ---------------------------------------------------------------------------

/// A measured duration: its milliseconds, and the same in seconds written
/// with two decimals.
pub struct ExportDuration {
    pub ms: i64,
    pub seconds: String,
}

/// Under a second a duration is shown in milliseconds, else in seconds.
pub open spec fn duration_text(d: ExportDuration) -> Seq<char> {
    if d.ms < 1000 {
        int_text(d.ms as int) + " ms"@
    } else {
        d.seconds@ + " s"@
    }
}

/// How an export shows a duration.
pub fn format_duration_for_export(duration: &ExportDuration) -> (r: String)
    ensures
        r@ == duration_text(*duration),
{
    let mut out: Vec<char> = Vec::new();
    if duration.ms < 1000 {
        push_int(&mut out, duration.ms);
        extend_str(&mut out, " ms");
    } else {
        extend_str(&mut out, duration.seconds.as_str());
        extend_str(&mut out, " s");
    }
    assert(out@ =~= duration_text(*duration));
    string_of(&out)
}

/// The generation behind an assistant message.
pub struct ExportRun {
    pub model_name: String,
    pub status: String,
    pub total_duration: Option<ExportDuration>,
    pub load_duration: Option<ExportDuration>,
    pub prompt_eval_count: Option<i64>,
    pub eval_count: Option<i64>,
    /// Tokens per second, written with one decimal.
    pub speed: Option<String>,
    pub error_message: Option<String>,
}

/// A message as exported.
pub struct ExportMessage {
    pub role: String,
    pub content: String,
    pub created_at: i64,
    pub run: Option<ExportRun>,
}

/// The chat an export is about.
pub struct ExportChat {
    pub id: String,
    pub title: String,
    pub created_at: i64,
    pub updated_at: i64,
    pub message_count: i64,
}

/// `prefix`, the value and `suffix` when there is a value; nothing else.
#[verifier::opaque]
pub open spec fn piece(prefix: Seq<char>, value: Option<Seq<char>>, suffix: Seq<char>) -> Seq<char> {
    match value {
        Some(v) => prefix + v + suffix,
        None => Seq::empty(),
    }
}

pub open spec fn count_value(n: Option<i64>) -> Option<Seq<char>> {
    match n {
        Some(v) => Some(int_text(v as int)),
        None => None,
    }
}

pub open spec fn duration_value(d: Option<ExportDuration>) -> Option<Seq<char>> {
    match d {
        Some(v) => Some(duration_text(v)),
        None => None,
    }
}

pub open spec fn text_value(s: Option<String>) -> Option<Seq<char>> {
    match s {
        Some(v) => Some(v@),
        None => None,
    }
}

fn push_duration_piece(out: &mut Vec<char>, prefix: &str, d: &Option<ExportDuration>, suffix: &str)
    ensures
        final(out)@ == old(out)@ + piece(prefix@, duration_value(*d), suffix@),
{
    reveal(piece);
    match d {
        Some(d) => {
            extend_str(out, prefix);
            let text = format_duration_for_export(d);
            extend_str(out, text.as_str());
            extend_str(out, suffix);
            assert(out@ =~= old(out)@ + (prefix@ + duration_text(*d) + suffix@));
        },
        None => {
            assert(out@ =~= old(out)@ + Seq::<char>::empty());
        },
    }
}

fn push_count_piece(out: &mut Vec<char>, prefix: &str, n: Option<i64>, suffix: &str)
    ensures
        final(out)@ == old(out)@ + piece(prefix@, count_value(n), suffix@),
{
    reveal(piece);
    match n {
        Some(v) => {
            extend_str(out, prefix);
            push_int(out, v);
            extend_str(out, suffix);
            assert(out@ =~= old(out)@ + (prefix@ + int_text(v as int) + suffix@));
        },
        None => {
            assert(out@ =~= old(out)@ + Seq::<char>::empty());
        },
    }
}

fn push_text_piece(out: &mut Vec<char>, prefix: &str, t: &Option<String>, suffix: &str)
    ensures
        final(out)@ == old(out)@ + piece(prefix@, text_value(*t), suffix@),
{
    reveal(piece);
    match t {
        Some(v) => {
            extend_str(out, prefix);
            extend_str(out, v.as_str());
            extend_str(out, suffix);
            assert(out@ =~= old(out)@ + (prefix@ + v@ + suffix@));
        },
        None => {
            assert(out@ =~= old(out)@ + Seq::<char>::empty());
        },
    }
}

// ---------------------------------------------------------------------------
// Markdown
// ---------------------------------------------------------------------------

/// The model and status lines of a message's generation details.
pub open spec fn run_markdown_head(r: ExportRun) -> Seq<char> {
    "\n\nGeneration details:\n\n"@ + "- Model: `"@ + r.model_name@ + "`\n"@ + "- Status: "@
        + r.status@ + "\n"@
}

/// The measured lines of a message's generation details, each only when
/// it was measured.
pub open spec fn run_markdown_measures(r: ExportRun) -> Seq<char> {
    piece("- Total duration: "@, duration_value(r.total_duration), "\n"@) + piece(
        "- Load duration: "@,
        duration_value(r.load_duration),
        "\n"@,
    ) + piece("- Prompt tokens: "@, count_value(r.prompt_eval_count), "\n"@) + piece(
        "- Completion tokens: "@,
        count_value(r.eval_count),
        "\n"@,
    ) + piece("- Speed: "@, text_value(r.speed), " tokens/s\n"@) + piece(
        "- Error: "@,
        text_value(r.error_message),
        "\n"@,
    )
}

/// The generation details of a message, as a Markdown list.
pub open spec fn run_markdown(r: ExportRun) -> Seq<char> {
    run_markdown_head(r) + run_markdown_measures(r)
}

/// One message: a heading with its role and time, its text, and its
/// generation details when it has them.
#[verifier::opaque]
pub open spec fn message_markdown(m: ExportMessage) -> Seq<char> {
    "## "@ + role_label_text(m.role@) + " - "@ + timestamp_text(m.created_at as int) + "\n\n"@
        + m.content@ + match m.run {
        Some(r) => run_markdown(r),
        None => Seq::empty(),
    } + "\n\n"@
}

pub open spec fn messages_markdown(ms: Seq<ExportMessage>) -> Seq<Seq<char>> {
    ms.map_values(|m: ExportMessage| message_markdown(m))
}

/// The title and id of a chat in Markdown.
pub open spec fn chat_markdown_title(chat: ExportChat) -> Seq<char> {
    "# "@ + markdown_escaped(chat.title@) + "\n\n"@ + "- Chat ID: `"@ + chat.id@ + "`\n"@
}

/// A label, a time in ISO 8601 and a line end.
#[verifier::opaque]
pub open spec fn time_line(label: Seq<char>, ms: int) -> Seq<char> {
    label + timestamp_text(ms) + "\n"@
}

/// The times and message count of a chat in Markdown.
pub open spec fn chat_markdown_facts(chat: ExportChat, exported_at: int) -> Seq<char> {
    time_line("- Created: "@, chat.created_at as int) + time_line(
        "- Updated: "@,
        chat.updated_at as int,
    ) + time_line("- Exported: "@, exported_at) + "- Messages: "@ + int_text(
        chat.message_count as int,
    ) + "\n\n"@
}

/// The title and details of a chat in Markdown.
pub open spec fn chat_markdown_head(chat: ExportChat, exported_at: int) -> Seq<char> {
    chat_markdown_title(chat) + chat_markdown_facts(chat, exported_at)
}

/// A chat in Markdown: the escaped title, the chat's details, then each
/// message, or a note that there are none.
pub open spec fn chat_markdown(chat: ExportChat, messages: Seq<ExportMessage>, exported_at: int) -> Seq<
    char,
> {
    chat_markdown_head(chat, exported_at) + if messages.len() == 0 {
        "_No messages._\n"@
    } else {
        join_with(messages_markdown(messages), Seq::empty())
    }
}

fn push_run_markdown_head(out: &mut Vec<char>, r: &ExportRun)
    ensures
        final(out)@ == old(out)@ + run_markdown_head(*r),
{
    extend_str(out, "\n\nGeneration details:\n\n");
    extend_str(out, "- Model: `");
    extend_str(out, r.model_name.as_str());
    extend_str(out, "`\n");
    extend_str(out, "- Status: ");
    extend_str(out, r.status.as_str());
    extend_str(out, "\n");
    assert(out@ =~= old(out)@ + run_markdown_head(*r));
}

fn push_run_markdown_measures(out: &mut Vec<char>, r: &ExportRun)
    ensures
        final(out)@ == old(out)@ + run_markdown_measures(*r),
{
    let ghost start = out@;
    let ghost p1 = piece("- Total duration: "@, duration_value(r.total_duration), "\n"@);
    let ghost p2 = piece("- Load duration: "@, duration_value(r.load_duration), "\n"@);
    let ghost p3 = piece("- Prompt tokens: "@, count_value(r.prompt_eval_count), "\n"@);
    let ghost p4 = piece("- Completion tokens: "@, count_value(r.eval_count), "\n"@);
    let ghost p5 = piece("- Speed: "@, text_value(r.speed), " tokens/s\n"@);
    let ghost p6 = piece("- Error: "@, text_value(r.error_message), "\n"@);
    push_duration_piece(out, "- Total duration: ", &r.total_duration, "\n");
    push_duration_piece(out, "- Load duration: ", &r.load_duration, "\n");
    assert(out@ =~= start + (p1 + p2));
    push_count_piece(out, "- Prompt tokens: ", r.prompt_eval_count, "\n");
    assert(out@ =~= start + (p1 + p2 + p3));
    push_count_piece(out, "- Completion tokens: ", r.eval_count, "\n");
    assert(out@ =~= start + (p1 + p2 + p3 + p4));
    push_text_piece(out, "- Speed: ", &r.speed, " tokens/s\n");
    assert(out@ =~= start + (p1 + p2 + p3 + p4 + p5));
    push_text_piece(out, "- Error: ", &r.error_message, "\n");
    assert(out@ =~= start + (p1 + p2 + p3 + p4 + p5 + p6));
}

fn push_run_markdown(out: &mut Vec<char>, r: &ExportRun)
    ensures
        final(out)@ == old(out)@ + run_markdown(*r),
{
    push_run_markdown_head(out, r);
    push_run_markdown_measures(out, r);
    assert(out@ =~= old(out)@ + run_markdown(*r));
}

fn message_markdown_chars(m: &ExportMessage) -> (r: Vec<char>)
    ensures
        r@ == message_markdown(*m),
{
    reveal(message_markdown);
    let mut out = chars_of("## ");
    extend_str(&mut out, role_label(m.role.as_str()));
    extend_str(&mut out, " - ");
    let ts = format_timestamp_ms(m.created_at);
    extend_str(&mut out, ts.as_str());
    extend_str(&mut out, "\n\n");
    extend_str(&mut out, m.content.as_str());
    let ghost before_run = out@;
    match &m.run {
        Some(r) => push_run_markdown(&mut out, r),
        None => {},
    }
    assert(out@ =~= before_run + match m.run {
        Some(r) => run_markdown(r),
        None => Seq::empty(),
    });
    extend_str(&mut out, "\n\n");
    assert(out@ =~= message_markdown(*m));
    out
}

fn push_chat_markdown_title(out: &mut Vec<char>, chat: &ExportChat)
    ensures
        final(out)@ == old(out)@ + chat_markdown_title(*chat),
{
    extend_str(out, "# ");
    let title = escape_markdown_inline(chat.title.as_str());
    extend_str(out, title.as_str());
    extend_str(out, "\n\n");
    extend_str(out, "- Chat ID: `");
    extend_str(out, chat.id.as_str());
    extend_str(out, "`\n");
    assert(out@ =~= old(out)@ + chat_markdown_title(*chat));
}

fn push_labelled_time(out: &mut Vec<char>, label: &str, ms: i64)
    ensures
        final(out)@ == old(out)@ + time_line(label@, ms as int),
{
    reveal(time_line);
    extend_str(out, label);
    let t = format_timestamp_ms(ms);
    extend_str(out, t.as_str());
    extend_str(out, "\n");
    assert(out@ =~= old(out)@ + time_line(label@, ms as int));
}

fn push_chat_markdown_facts(out: &mut Vec<char>, chat: &ExportChat, exported_at: i64)
    ensures
        final(out)@ == old(out)@ + chat_markdown_facts(*chat, exported_at as int),
{
    let ghost start = out@;
    let ghost t1 = time_line("- Created: "@, chat.created_at as int);
    let ghost t2 = time_line("- Updated: "@, chat.updated_at as int);
    let ghost t3 = time_line("- Exported: "@, exported_at as int);
    push_labelled_time(out, "- Created: ", chat.created_at);
    push_labelled_time(out, "- Updated: ", chat.updated_at);
    assert(out@ =~= start + (t1 + t2));
    push_labelled_time(out, "- Exported: ", exported_at);
    assert(out@ =~= start + (t1 + t2 + t3));
    let ghost times = out@;
    extend_str(out, "- Messages: ");
    push_int(out, chat.message_count);
    extend_str(out, "\n\n");
    assert(out@ =~= times + ("- Messages: "@ + int_text(chat.message_count as int) + "\n\n"@));
    assert(out@ =~= start + chat_markdown_facts(*chat, exported_at as int));
}

fn push_chat_markdown_head(out: &mut Vec<char>, chat: &ExportChat, exported_at: i64)
    ensures
        final(out)@ == old(out)@ + chat_markdown_head(*chat, exported_at as int),
{
    push_chat_markdown_title(out, chat);
    push_chat_markdown_facts(out, chat, exported_at);
    assert(out@ =~= old(out)@ + chat_markdown_head(*chat, exported_at as int));
}

/// The Markdown export of a chat.
pub fn render_chat_markdown(chat: &ExportChat, messages: &Vec<ExportMessage>, exported_at: i64) -> (r:
    String)
    ensures
        r@ == chat_markdown(*chat, messages@, exported_at as int),
{
    let mut out: Vec<char> = Vec::new();
    push_chat_markdown_head(&mut out, chat, exported_at);
    let ghost head = out@;
    assert(head =~= chat_markdown_head(*chat, exported_at as int));
    if messages.len() == 0 {
        extend_str(&mut out, "_No messages._\n");
    } else {
        let mut parts: Vec<Vec<char>> = Vec::new();
        let mut i: usize = 0;
        while i < messages.len()
            invariant
                i <= messages@.len(),
                views(parts@) == messages_markdown(messages@).take(i as int),
            decreases messages@.len() - i,
        {
            let part = message_markdown_chars(&messages[i]);
            let ghost before = parts@;
            parts.push(part);
            assert(parts@ == before.push(part));
            assert(views(parts@) =~= views(before).push(part@));
            assert(views(parts@) =~= messages_markdown(messages@).take(i as int + 1));
            i = i + 1;
        }
        assert(messages_markdown(messages@).take(messages@.len() as int) =~= messages_markdown(
            messages@,
        ));
        let empty: Vec<char> = Vec::new();
        let joined = join_chars(&parts, &empty);
        assert(empty@ =~= Seq::<char>::empty());
        extend_chars(&mut out, &joined);
    }
    assert(out@ =~= chat_markdown(*chat, messages@, exported_at as int));
    string_of(&out)
}

// ---------------------------------------------------------------------------
// Plain text
// ---------------------------------------------------------------------------

/// A detail of a generation when it was measured, as a one-element list.
pub open spec fn detail(prefix: Seq<char>, value: Option<Seq<char>>, suffix: Seq<char>) -> Seq<
    Seq<char>,
> {
    match value {
        Some(v) => seq![prefix + v + suffix],
        None => Seq::empty(),
    }
}

/// The details of a generation: model and status, then what was measured.
pub open spec fn run_details(r: ExportRun) -> Seq<Seq<char>> {
    seq!["model: "@ + r.model_name@, "status: "@ + r.status@] + detail(
        "total: "@,
        duration_value(r.total_duration),
        Seq::empty(),
    ) + detail("prompt tokens: "@, count_value(r.prompt_eval_count), Seq::empty()) + detail(
        "completion tokens: "@,
        count_value(r.eval_count),
        Seq::empty(),
    ) + detail("speed: "@, text_value(r.speed), " tokens/s"@) + detail(
        "error: "@,
        text_value(r.error_message),
        Seq::empty(),
    )
}

/// A generation on one line, its details separated by "; ".
pub open spec fn run_text(r: ExportRun) -> Seq<char> {
    "Generation: "@ + join_with(run_details(r), "; "@) + "\n"@
}

/// One message: its role and time in brackets, its text, and its
/// generation on a line of its own.
#[verifier::opaque]
pub open spec fn message_text(m: ExportMessage) -> Seq<char> {
    "["@ + role_label_text(m.role@) + " | "@ + timestamp_text(m.created_at as int) + "]\n"@
        + m.content@ + "\n"@ + match m.run {
        Some(r) => run_text(r),
        None => Seq::empty(),
    } + "\n"@
}

pub open spec fn messages_text(ms: Seq<ExportMessage>) -> Seq<Seq<char>> {
    ms.map_values(|m: ExportMessage| message_text(m))
}

/// A title underlined with as many '=' as it has characters (at least one).
pub open spec fn underline(title: Seq<char>) -> Seq<char> {
    Seq::new(if title.len() > 0 { title.len() } else { 1 }, |i: int| '=')
}

/// The title and details of a chat in plain text.
pub open spec fn chat_text_head(chat: ExportChat, exported_at: int) -> Seq<char> {
    chat.title@ + "\n"@ + underline(chat.title@) + "\n\n"@ + "Chat ID: "@ + chat.id@ + "\n"@
        + time_line("Created: "@, chat.created_at as int) + time_line(
        "Updated: "@,
        chat.updated_at as int,
    ) + time_line("Exported: "@, exported_at) + "Messages: "@ + int_text(
        chat.message_count as int,
    ) + "\n\n"@
}

/// A chat in plain text: the underlined title, the chat's details, then
/// each message, or a note that there are none.
pub open spec fn chat_text(chat: ExportChat, messages: Seq<ExportMessage>, exported_at: int) -> Seq<
    char,
> {
    chat_text_head(chat, exported_at) + if messages.len() == 0 {
        "No messages.\n"@
    } else {
        join_with(messages_text(messages), Seq::empty())
    }
}

fn push_detail(parts: &mut Vec<Vec<char>>, prefix: &str, value: Option<Vec<char>>, suffix: &str)
    ensures
        views(final(parts)@) == views(old(parts)@) + detail(
            prefix@,
            match value {
                Some(v) => Some(v@),
                None => None,
            },
            suffix@,
        ),
{
    match value {
        Some(v) => {
            let mut d = chars_of(prefix);
            extend_chars(&mut d, &v);
            extend_str(&mut d, suffix);
            let ghost before = parts@;
            parts.push(d);
            assert(parts@ == before.push(d));
            assert(views(parts@) =~= views(before) + seq![prefix@ + v@ + suffix@]);
        },
        None => {
            assert(views(parts@) =~= views(old(parts)@) + Seq::<Seq<char>>::empty());
        },
    }
}

fn count_chars(n: Option<i64>) -> (r: Option<Vec<char>>)
    ensures
        match r {
            Some(v) => count_value(n) == Some(v@),
            None => count_value(n) is None,
        },
{
    match n {
        Some(v) => {
            let mut out: Vec<char> = Vec::new();
            push_int(&mut out, v);
            assert(out@ =~= int_text(v as int));
            Some(out)
        },
        None => None,
    }
}

fn duration_chars(d: &Option<ExportDuration>) -> (r: Option<Vec<char>>)
    ensures
        match r {
            Some(v) => duration_value(*d) == Some(v@),
            None => duration_value(*d) is None,
        },
{
    match d {
        Some(d) => {
            let text = format_duration_for_export(d);
            Some(chars_of(text.as_str()))
        },
        None => None,
    }
}

fn text_chars(s: &Option<String>) -> (r: Option<Vec<char>>)
    ensures
        match r {
            Some(v) => text_value(*s) == Some(v@),
            None => text_value(*s) is None,
        },
{
    match s {
        Some(v) => Some(chars_of(v.as_str())),
        None => None,
    }
}

fn run_details_chars(r: &ExportRun) -> (parts: Vec<Vec<char>>)
    ensures
        views(parts@) == run_details(*r),
{
    let mut parts: Vec<Vec<char>> = Vec::new();
    let mut model = chars_of("model: ");
    extend_str(&mut model, r.model_name.as_str());
    parts.push(model);
    let mut status = chars_of("status: ");
    extend_str(&mut status, r.status.as_str());
    parts.push(status);
    let ghost d0 = seq!["model: "@ + r.model_name@, "status: "@ + r.status@];
    assert(views(parts@) =~= d0);
    let ghost d1 = detail("total: "@, duration_value(r.total_duration), Seq::empty());
    let ghost d2 = detail("prompt tokens: "@, count_value(r.prompt_eval_count), Seq::empty());
    let ghost d3 = detail("completion tokens: "@, count_value(r.eval_count), Seq::empty());
    let ghost d4 = detail("speed: "@, text_value(r.speed), " tokens/s"@);
    let ghost d5 = detail("error: "@, text_value(r.error_message), Seq::empty());
    let none = "";
    assert(none@ =~= Seq::<char>::empty()) by {
        reveal_strlit("");
    }
    push_detail(&mut parts, "total: ", duration_chars(&r.total_duration), none);
    push_detail(&mut parts, "prompt tokens: ", count_chars(r.prompt_eval_count), none);
    assert(views(parts@) =~= d0 + d1 + d2);
    push_detail(&mut parts, "completion tokens: ", count_chars(r.eval_count), none);
    assert(views(parts@) =~= d0 + d1 + d2 + d3);
    push_detail(&mut parts, "speed: ", text_chars(&r.speed), " tokens/s");
    assert(views(parts@) =~= d0 + d1 + d2 + d3 + d4);
    push_detail(&mut parts, "error: ", text_chars(&r.error_message), none);
    assert(views(parts@) =~= d0 + d1 + d2 + d3 + d4 + d5);
    parts
}

fn push_run_text(out: &mut Vec<char>, r: &ExportRun)
    ensures
        final(out)@ == old(out)@ + run_text(*r),
{
    let parts = run_details_chars(r);
    let joined = join_chars(&parts, &chars_of("; "));
    extend_str(out, "Generation: ");
    extend_chars(out, &joined);
    extend_str(out, "\n");
    assert(out@ =~= old(out)@ + run_text(*r));
}

fn message_text_chars(m: &ExportMessage) -> (r: Vec<char>)
    ensures
        r@ == message_text(*m),
{
    reveal(message_text);
    let mut out = chars_of("[");
    extend_str(&mut out, role_label(m.role.as_str()));
    extend_str(&mut out, " | ");
    let ts = format_timestamp_ms(m.created_at);
    extend_str(&mut out, ts.as_str());
    extend_str(&mut out, "]\n");
    extend_str(&mut out, m.content.as_str());
    extend_str(&mut out, "\n");
    let ghost before_run = out@;
    match &m.run {
        Some(r) => push_run_text(&mut out, r),
        None => {},
    }
    assert(out@ =~= before_run + match m.run {
        Some(r) => run_text(r),
        None => Seq::empty(),
    });
    extend_str(&mut out, "\n");
    assert(out@ =~= message_text(*m));
    out
}

fn push_chat_text_head(out: &mut Vec<char>, chat: &ExportChat, exported_at: i64)
    ensures
        final(out)@ == old(out)@ + chat_text_head(*chat, exported_at as int),
{
    let ghost start = out@;
    extend_str(out, chat.title.as_str());
    extend_str(out, "\n");
    let n = chars_of(chat.title.as_str()).len();
    let count = if n > 0 {
        n
    } else {
        1
    };
    let ghost before_line = out@;
    let mut i: usize = 0;
    while i < count
        invariant
            i <= count,
            out@ == before_line + Seq::new(i as nat, |k: int| '='),
        decreases count - i,
    {
        out.push('=');
        assert(out@ =~= before_line + Seq::new(i as nat + 1, |k: int| '='));
        i = i + 1;
    }
    assert(out@ =~= start + (chat.title@ + "\n"@ + underline(chat.title@)));
    let ghost titled = out@;
    extend_str(out, "\n\n");
    extend_str(out, "Chat ID: ");
    extend_str(out, chat.id.as_str());
    extend_str(out, "\n");
    let ghost with_id = out@;
    push_labelled_time(out, "Created: ", chat.created_at);
    push_labelled_time(out, "Updated: ", chat.updated_at);
    push_labelled_time(out, "Exported: ", exported_at);
    let ghost timed = out@;
    extend_str(out, "Messages: ");
    push_int(out, chat.message_count);
    extend_str(out, "\n\n");
    assert(out@ =~= start + chat_text_head(*chat, exported_at as int));
}

/// The plain-text export of a chat.
pub fn render_chat_text(chat: &ExportChat, messages: &Vec<ExportMessage>, exported_at: i64) -> (r:
    String)
    ensures
        r@ == chat_text(*chat, messages@, exported_at as int),
{
    let mut out: Vec<char> = Vec::new();
    push_chat_text_head(&mut out, chat, exported_at);
    let ghost head = out@;
    assert(head =~= chat_text_head(*chat, exported_at as int));
    if messages.len() == 0 {
        extend_str(&mut out, "No messages.\n");
    } else {
        let mut parts: Vec<Vec<char>> = Vec::new();
        let mut i: usize = 0;
        while i < messages.len()
            invariant
                i <= messages@.len(),
                views(parts@) == messages_text(messages@).take(i as int),
            decreases messages@.len() - i,
        {
            let part = message_text_chars(&messages[i]);
            let ghost before = parts@;
            parts.push(part);
            assert(parts@ == before.push(part));
            assert(views(parts@) =~= views(before).push(part@));
            assert(views(parts@) =~= messages_text(messages@).take(i as int + 1));
            i = i + 1;
        }
        assert(messages_text(messages@).take(messages@.len() as int) =~= messages_text(messages@));
        let empty: Vec<char> = Vec::new();
        let joined = join_chars(&parts, &empty);
        assert(empty@ =~= Seq::<char>::empty());
        extend_chars(&mut out, &joined);
    }
    assert(out@ =~= chat_text(*chat, messages@, exported_at as int));
    string_of(&out)
}

} // verus!
