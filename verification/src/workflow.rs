//! The decisions taken while Ollama streams an answer or a model download,
//! and how a generation that ended is recorded.  The desktop shell reads
//! the stream and the clock; these machines say what each line means.
use vstd::prelude::*;
use crate::text::{chars_of, extend_chars, str_eq, string_of, trim, trim_chars, trim_str};

verus! {

// ---------------------------------------------------------------------------
// The chat stream
// ---------------------------------------------------------------------------

/// What the reader of a chat stream reports.
pub enum ChatStreamEvent {
    /// Cancellation was requested before the next read.
    Cancelled,
    /// Reading a line failed.
    ReadFailed { message: String },
    /// The stream ended.
    EndOfStream,
    /// A line was read.
    Line { text: String },
    /// The line handed out for parsing was a chunk: its message text, if
    /// any, and whether it is the last one.
    Chunk { content: Option<String>, done: bool },
    /// The line handed out for parsing was not a chunk.
    ParseFailed { message: String },
}

/// What the reader must do next.
pub enum ChatStreamAction {
    /// Read the next line; first stamp the time of the first token when
    /// asked.
    ReadNext { stamp_first_token: bool },
    /// Parse this (trimmed) line as a chunk.
    Parse { line: String },
    /// The generation failed with this message; `content` is the trimmed
    /// text received so far.
    Fail { message: String, content: String, cancelled: bool },
    /// The stream is over (stamp the first token first when asked; take the
    /// metadata from the last chunk when `from_chunk`): the trimmed answer,
    /// or the error for an empty one.
    Finish { stamp_first_token: bool, from_chunk: bool, result: Result<String, String> },
}

pub enum ChatActionView {
    ReadNext(bool),
    Parse(Seq<char>),
    Fail(Seq<char>, Seq<char>, bool),
    Finish(bool, bool, Result<Seq<char>, Seq<char>>),
}

pub open spec fn chat_action_view(a: ChatStreamAction) -> ChatActionView {
    match a {
        ChatStreamAction::ReadNext { stamp_first_token } => ChatActionView::ReadNext(stamp_first_token),
        ChatStreamAction::Parse { line } => ChatActionView::Parse(line@),
        ChatStreamAction::Fail { message, content, cancelled } => ChatActionView::Fail(
            message@,
            content@,
            cancelled,
        ),
        ChatStreamAction::Finish { stamp_first_token, from_chunk, result } => ChatActionView::Finish(
            stamp_first_token,
            from_chunk,
            match result {
                Ok(c) => Ok(c@),
                Err(e) => Err(e@),
            },
        ),
    }
}

pub open spec fn empty_response_text() -> Seq<char> {
    "Ollama returned an empty response"@
}

/// The result for the text received when the stream is over.
pub open spec fn stream_result(content: Seq<char>) -> Result<Seq<char>, Seq<char>> {
    if trim(content).len() == 0 {
        Err(empty_response_text())
    } else {
        Ok(trim(content))
    }
}

/// The reader of one chat stream: the text received so far and whether a
/// first token was seen.
pub struct ChatStream {
    pub content: Vec<char>,
    pub first_token_seen: bool,
}

/// The decision for one event, from the text received so far.
pub open spec fn chat_stream_step(content: Seq<char>, seen: bool, event: ChatStreamEvent) -> (
    Seq<char>,
    bool,
    ChatActionView,
) {
    match event {
        ChatStreamEvent::Cancelled => (content, seen, ChatActionView::Fail(
            "Generation cancelled"@,
            trim(content),
            true,
        )),
        ChatStreamEvent::ReadFailed { message } => (content, seen, ChatActionView::Fail(
            message@,
            trim(content),
            false,
        )),
        ChatStreamEvent::EndOfStream => (content, seen, ChatActionView::Finish(
            false,
            false,
            stream_result(content),
        )),
        ChatStreamEvent::Line { text } => if trim(text@).len() == 0 {
            (content, seen, ChatActionView::ReadNext(false))
        } else {
            (content, seen, ChatActionView::Parse(trim(text@)))
        },
        ChatStreamEvent::ParseFailed { message } => (content, seen, ChatActionView::Fail(
            message@,
            trim(content),
            false,
        )),
        ChatStreamEvent::Chunk { content: piece, done } => {
            let text = match piece {
                Some(p) => p@,
                None => Seq::empty(),
            };
            let stamp = piece is Some && !seen && text.len() > 0;
            let c2 = content + text;
            let seen2 = seen || stamp;
            if done {
                (c2, seen2, ChatActionView::Finish(stamp, true, stream_result(c2)))
            } else {
                (c2, seen2, ChatActionView::ReadNext(stamp))
            }
        },
    }
}

impl ChatStream {
    /// Nothing received yet.
    pub fn new() -> (r: ChatStream)
        ensures
            r.content@.len() == 0,
            !r.first_token_seen,
    {
        ChatStream { content: Vec::new(), first_token_seen: false }
    }

    /// The decisions of a streamed chat generation: a cancellation or a failed
    /// read or parse ends the generation with the trimmed text so far;
    /// blank lines are skipped; a chunk's text is appended (the first
    /// non-empty one stamps the first token) and its `done` flag ends the
    /// stream; at the end an answer that is blank once trimmed is an error.
    pub fn step(&mut self, event: ChatStreamEvent) -> (action: ChatStreamAction)
        ensures
            (final(self).content@, final(self).first_token_seen, chat_action_view(action))
                == chat_stream_step(old(self).content@, old(self).first_token_seen, event),
    {
        match event {
            ChatStreamEvent::Cancelled => {
                let c = trim_chars(&self.content);
                ChatStreamAction::Fail {
                    message: String::from_str("Generation cancelled"),
                    content: string_of(&c),
                    cancelled: true,
                }
            },
            ChatStreamEvent::ReadFailed { message } => {
                let c = trim_chars(&self.content);
                ChatStreamAction::Fail { message, content: string_of(&c), cancelled: false }
            },
            ChatStreamEvent::EndOfStream => {
                let result = self.result();
                ChatStreamAction::Finish { stamp_first_token: false, from_chunk: false, result }
            },
            ChatStreamEvent::Line { text } => {
                let t = trim_str(text.as_str());
                if t.len() == 0 {
                    ChatStreamAction::ReadNext { stamp_first_token: false }
                } else {
                    ChatStreamAction::Parse { line: string_of(&t) }
                }
            },
            ChatStreamEvent::ParseFailed { message } => {
                let c = trim_chars(&self.content);
                ChatStreamAction::Fail { message, content: string_of(&c), cancelled: false }
            },
            ChatStreamEvent::Chunk { content, done } => {
                let mut stamp = false;
                match &content {
                    Some(piece) => {
                        let p = chars_of(piece.as_str());
                        if !self.first_token_seen && p.len() > 0 {
                            stamp = true;
                            self.first_token_seen = true;
                        }
                        extend_chars(&mut self.content, &p);
                    },
                    None => {
                        assert(self.content@ + Seq::<char>::empty() =~= self.content@);
                    },
                }
                if done {
                    let result = self.result();
                    ChatStreamAction::Finish { stamp_first_token: stamp, from_chunk: true, result }
                } else {
                    ChatStreamAction::ReadNext { stamp_first_token: stamp }
                }
            },
        }
    }

    fn result(&self) -> (r: Result<String, String>)
        ensures
            match r {
                Ok(c) => stream_result(self.content@) == Ok::<Seq<char>, Seq<char>>(c@),
                Err(e) => stream_result(self.content@) == Err::<Seq<char>, Seq<char>>(e@),
            },
    {
        let c = trim_chars(&self.content);
        if c.len() == 0 {
            Err(String::from_str("Ollama returned an empty response"))
        } else {
            Ok(string_of(&c))
        }
    }
}

/// The first token is stamped at most once: only while none was seen, and
/// once stamped it stays seen; text received is never lost.
pub proof fn lemma_first_token_stamped_once(content: Seq<char>, seen: bool, event: ChatStreamEvent)
    ensures
        ({
            let (c2, seen2, action) = chat_stream_step(content, seen, event);
            &&& seen ==> seen2
            &&& content.len() <= c2.len() && c2.take(content.len() as int) == content
            &&& (match action {
                ChatActionView::ReadNext(stamp) => stamp ==> !seen && seen2,
                ChatActionView::Finish(stamp, _, _) => stamp ==> !seen && seen2,
                _ => true,
            })
        }),
{
    let (c2, seen2, action) = chat_stream_step(content, seen, event);
    assert(c2.take(content.len() as int) =~= content);
}

/// A finished stream's answer is the received text, trimmed, and never
/// blank.
pub proof fn lemma_finished_answer_not_blank(content: Seq<char>)
    ensures
        stream_result(content) matches Ok(a) ==> a.len() > 0 && a == trim(content),
{
}

/// The text that the chunks among `events` carry, in order.
pub open spec fn chunk_texts(events: Seq<ChatStreamEvent>) -> Seq<char>
    decreases events.len(),
{
    if events.len() == 0 {
        Seq::empty()
    } else {
        chunk_texts(events.drop_last()) + match events.last() {
            ChatStreamEvent::Chunk { content: Some(p), .. } => p@,
            _ => Seq::empty(),
        }
    }
}

/// The text received and whether a first token was seen after `events`.
pub open spec fn chat_stream_run(content: Seq<char>, seen: bool, events: Seq<ChatStreamEvent>) -> (
    Seq<char>,
    bool,
)
    decreases events.len(),
{
    if events.len() == 0 {
        (content, seen)
    } else {
        let (c, s) = chat_stream_run(content, seen, events.drop_last());
        let (c2, s2, _) = chat_stream_step(c, s, events.last());
        (c2, s2)
    }
}

/// Lines read and chunks that do not close the stream: what a stream holds
/// before its last chunk.
pub open spec fn open_stream_event(e: ChatStreamEvent) -> bool {
    ||| e is Line
    ||| e matches ChatStreamEvent::Chunk { done, .. } && !done
}

/// Reading lines and open chunks from the start keeps exactly the chunks'
/// text.
proof fn lemma_stream_run_text(events: Seq<ChatStreamEvent>)
    requires
        forall|i: int| 0 <= i < events.len() ==> open_stream_event(#[trigger] events[i]),
    ensures
        chat_stream_run(Seq::empty(), false, events).0 == chunk_texts(events),
    decreases events.len(),
{
    if events.len() > 0 {
        let rest = events.drop_last();
        assert forall|i: int| 0 <= i < rest.len() implies open_stream_event(#[trigger] rest[i]) by {
            assert(rest[i] == events[i]);
        }
        lemma_stream_run_text(rest);
        assert(open_stream_event(events[events.len() - 1]));
        assert(Seq::<char>::empty() + chunk_texts(rest) =~= chunk_texts(rest));
        assert(chunk_texts(rest) + Seq::<char>::empty() =~= chunk_texts(rest));
    }
}

/// Over a stream of lines and chunks that its last chunk closes, the answer
/// is the text of all its chunks joined and trimmed, or the empty-response
/// error when that text is blank.
pub proof fn lemma_stream_answer(events: Seq<ChatStreamEvent>, last: Option<String>)
    requires
        forall|i: int| 0 <= i < events.len() ==> open_stream_event(#[trigger] events[i]),
    ensures
        ({
            let closing = ChatStreamEvent::Chunk { content: last, done: true };
            let (c, s) = chat_stream_run(Seq::empty(), false, events);
            chat_stream_step(c, s, closing).2 matches ChatActionView::Finish(_, from_chunk, r)
                && from_chunk && r == stream_result(chunk_texts(events.push(closing)))
        }),
{
    let closing = ChatStreamEvent::Chunk { content: last, done: true };
    lemma_stream_run_text(events);
    assert(events.push(closing).drop_last() =~= events);
    assert(chunk_texts(events) + Seq::<char>::empty() =~= chunk_texts(events));
}

// ---------------------------------------------------------------------------
// The model download stream
// ---------------------------------------------------------------------------

/// What the reader of a download stream reports.
pub enum PullStreamEvent {
    Cancelled,
    ReadFailed { message: String },
    EndOfStream,
    Line { text: String },
    /// The line handed out for parsing was a progress report.
    Progress { status: Option<String>, completed: Option<i64>, total: Option<i64>, error: Option<String> },
    ParseFailed { message: String },
}

/// What the reader must do next.
pub enum PullStreamAction {
    ReadNext,
    Parse { line: String },
    /// Report this progress; stop with success afterwards when `last`.
    Report { status: String, completed: Option<i64>, total: Option<i64>, last: bool },
    /// The download ended.
    Stop { result: Result<(), String> },
}

pub enum PullActionView {
    ReadNext,
    Parse(Seq<char>),
    Report(Seq<char>, Option<i64>, Option<i64>, bool),
    Stop(Result<(), Seq<char>>),
}

pub open spec fn pull_action_view(a: PullStreamAction) -> PullActionView {
    match a {
        PullStreamAction::ReadNext => PullActionView::ReadNext,
        PullStreamAction::Parse { line } => PullActionView::Parse(line@),
        PullStreamAction::Report { status, completed, total, last } => PullActionView::Report(
            status@,
            completed,
            total,
            last,
        ),
        PullStreamAction::Stop { result } => PullActionView::Stop(
            match result {
                Ok(()) => Ok(()),
                Err(e) => Err(e@),
            },
        ),
    }
}

/// The decision of a model download stream for one event.
pub open spec fn pull_stream_step(event: PullStreamEvent) -> PullActionView {
    match event {
        PullStreamEvent::Cancelled => PullActionView::Stop(Err("Job cancelled"@)),
        PullStreamEvent::ReadFailed { message } => PullActionView::Stop(Err(message@)),
        PullStreamEvent::EndOfStream => PullActionView::Stop(Ok(())),
        PullStreamEvent::Line { text } => if trim(text@).len() == 0 {
            PullActionView::ReadNext
        } else {
            PullActionView::Parse(trim(text@))
        },
        PullStreamEvent::ParseFailed { message } => PullActionView::Stop(Err(message@)),
        PullStreamEvent::Progress { status, completed, total, error } => match error {
            Some(e) => PullActionView::Stop(Err(e@)),
            None => {
                let s = match status {
                    Some(s) => s@,
                    None => "Downloading model"@,
                };
                PullActionView::Report(s, completed, total, s == "success"@)
            },
        },
    }
}

/// A progress line is passed on as it came: without an error it is
/// reported with its own status (or "Downloading model" when it has none)
/// and its own completed and total sizes, unchanged, and it is the last
/// report exactly when the status is "success"; with an error the download
/// stops with that error.
pub proof fn lemma_pull_progress_passed_on(
    status: Option<String>,
    completed: Option<i64>,
    total: Option<i64>,
    error: Option<String>,
)
    ensures
        ({
            let a = pull_stream_step(PullStreamEvent::Progress { status, completed, total, error });
            &&& (error matches Some(e) ==> a == PullActionView::Stop(Err(e@)))
            &&& (error is None ==> (a matches PullActionView::Report(s, c, t, last) && c == completed
                && t == total && (last <==> s == "success"@) && (status matches Some(x) ==> s
                == x@) && (status is None ==> s == "Downloading model"@)))
        }),
{
}

/// The decisions of a model download stream: a cancellation stops with "Job
/// cancelled"; failed reads and parses stop with their message; blank lines
/// are skipped; a reported error stops the download; any other line is
/// reported as progress ("Downloading model" when it has no status), and a
/// "success" status ends the download.
pub fn pull_step(event: PullStreamEvent) -> (action: PullStreamAction)
    ensures
        pull_action_view(action) == pull_stream_step(event),
{
    match event {
        PullStreamEvent::Cancelled => PullStreamAction::Stop {
            result: Err(String::from_str("Job cancelled")),
        },
        PullStreamEvent::ReadFailed { message } => PullStreamAction::Stop { result: Err(message) },
        PullStreamEvent::EndOfStream => PullStreamAction::Stop { result: Ok(()) },
        PullStreamEvent::Line { text } => {
            let t = trim_str(text.as_str());
            if t.len() == 0 {
                PullStreamAction::ReadNext
            } else {
                PullStreamAction::Parse { line: string_of(&t) }
            }
        },
        PullStreamEvent::ParseFailed { message } => PullStreamAction::Stop { result: Err(message) },
        PullStreamEvent::Progress { status, completed, total, error } => match error {
            Some(e) => PullStreamAction::Stop { result: Err(e) },
            None => {
                let s = match status {
                    Some(s) => s,
                    None => String::from_str("Downloading model"),
                };
                let last = str_eq(s.as_str(), "success");
                PullStreamAction::Report { status: s, completed, total, last }
            },
        },
    }
}

// ---------------------------------------------------------------------------
// Recording a generation
// ---------------------------------------------------------------------------

/// How a generation ended.
#[derive(Clone, Copy, Debug, PartialEq, Eq, Structural)]
pub enum GenerationEnding {
    Completed,
    Cancelled,
    Failed,
}

pub open spec fn ending_text(e: GenerationEnding) -> Seq<char> {
    match e {
        GenerationEnding::Completed => "completed"@,
        GenerationEnding::Cancelled => "cancelled"@,
        GenerationEnding::Failed => "failed"@,
    }
}

/// The status stored for a generation run.
pub fn generation_status(e: GenerationEnding) -> (r: &'static str)
    ensures
        r@ == ending_text(e),
{
    match e {
        GenerationEnding::Completed => "completed",
        GenerationEnding::Cancelled => "cancelled",
        GenerationEnding::Failed => "failed",
    }
}

/// How a stream that did not complete ended.
pub fn failed_generation_ending(cancelled: bool) -> (r: GenerationEnding)
    ensures
        r == if cancelled {
            GenerationEnding::Cancelled
        } else {
            GenerationEnding::Failed
        },
{
    if cancelled {
        GenerationEnding::Cancelled
    } else {
        GenerationEnding::Failed
    }
}

/// The reply when storing a generation
/// that did not complete failed: a cancelled generation is reported as
/// cancelled, otherwise the storage error is.
pub open spec fn storage_failure_reply_text(cancelled: bool, storage_error: Seq<char>) -> Seq<char> {
    if cancelled {
        "Generation cancelled"@
    } else {
        storage_error
    }
}

pub fn storage_failure_reply(cancelled: bool, storage_error: String) -> (r: String)
    ensures
        r@ == storage_failure_reply_text(cancelled, storage_error@),
{
    if cancelled {
        String::from_str("Generation cancelled")
    } else {
        storage_error
    }
}

/// Whether text received before a failure is kept as an assistant message:
/// only when some was received.
pub fn keeps_partial_answer(content: &str) -> (r: bool)
    ensures
        r == (content@.len() > 0),
{
    chars_of(content).len() > 0
}

/// The reply when a chat has nothing to send.
pub fn check_has_messages(count: usize) -> (r: Result<(), String>)
    ensures
        r is Ok <==> count > 0,
        r matches Err(e) ==> e@ == "Chat has no messages to send to Ollama"@,
{
    if count == 0 {
        Err(String::from_str("Chat has no messages to send to Ollama"))
    } else {
        Ok(())
    }
}

} // verus!
