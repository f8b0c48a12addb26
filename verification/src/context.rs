//! Prompt context assembly: which system text, summary, memories, earlier
//! messages and document excerpts go to the model for the next answer, and
//! the trace of items recorded for that generation.
use vstd::prelude::*;
use crate::chunking::ceil_quarter;
use crate::digits::{dec_digits, fnv1a, hash_bytes, hex_digits, int_text, push_dec, push_int};
use crate::domain::{GenerationContextItemType, MemoryScopeType};
use crate::json::{json_object_text, metadata_json, pairs_view};
use crate::knowledge::GenerationDocumentSourceUse;
use crate::memory::Memory;
use crate::summary::ConversationSummary;
use crate::text::{
    chars_of, extend_chars, extend_str, has_infix, join_chars, join_with, lemma_infix_extend,
    lemma_infix_self, str_eq, string_of, truncate_inline_chars, truncate_inline_spec, views,
};

verus! {

/// Token budget for the whole prompt.
pub const MAX_CONTEXT_TOKEN_ESTIMATE: i64 = 12_000;

/// Tokens kept free for the answer when earlier messages are chosen.
pub const PRIOR_MESSAGE_RESERVE_TOKENS: i64 = 1_000;

/// Length of the previews stored in item metadata.
pub const PREVIEW_CHARS: usize = 180;

/// A stored chat message.
pub struct ChatMessage {
    pub id: i64,
    pub chat_id: String,
    pub role: String,
    pub content: String,
    pub created_at: i64,
}

/// One message of the prompt sent to the model.
pub struct ContextPromptMessage {
    pub role: String,
    pub content: String,
}

/// One entry of the context trace recorded for a generation.
pub struct GenerationContextItemDraft {
    pub item_type: GenerationContextItemType,
    pub item_id: Option<String>,
    pub label: String,
    pub token_count_estimate: i64,
    pub order_index: i64,
    pub metadata_json: Option<String>,
}

/// The prompt and its trace.
pub struct AssembledContext {
    pub messages: Vec<ContextPromptMessage>,
    pub items: Vec<GenerationContextItemDraft>,
}

/// What the assembler is given.
pub struct AssemblyInput<'a> {
    pub model_name: &'a str,
    pub messages: &'a [ChatMessage],
    pub prompt_summary: Option<&'a ConversationSummary>,
    pub prompt_memories: &'a [Memory],
    pub document_sources: &'a [GenerationDocumentSourceUse],
    pub knowledge_enabled: bool,
}

// ---------------------------------------------------------------------------
// Texts
// ---------------------------------------------------------------------------

pub open spec fn system_prompt_text() -> Seq<char> {
    "You are Atlas, a private local AI workspace. Answer directly from the visible conversation and explicitly provided context. Do not claim access to files, memory, or summaries unless those sources are provided in this prompt. Do not reveal hidden chain-of-thought."@
}

pub fn system_prompt() -> (r: &'static str)
    ensures
        r@ == system_prompt_text(),
{
    "You are Atlas, a private local AI workspace. Answer directly from the visible conversation and explicitly provided context. Do not claim access to files, memory, or summaries unless those sources are provided in this prompt. Do not reveal hidden chain-of-thought."
}

pub open spec fn no_knowledge_text() -> Seq<char> {
    "The user enabled Atlas local knowledge for this chat, but no matching indexed source chunks were retrieved for this message. Do not invent file citations; if the answer depends on local files, say the indexed sources do not contain enough information."@
}

pub fn no_knowledge_sources_context() -> (r: &'static str)
    ensures
        r@ == no_knowledge_text(),
{
    "The user enabled Atlas local knowledge for this chat, but no matching indexed source chunks were retrieved for this message. Do not invent file citations; if the answer depends on local files, say the indexed sources do not contain enough information."
}

/// `estimate_tokens`: a quarter of the characters, rounded up, at least one.
pub open spec fn est_tokens(s: Seq<char>) -> int {
    let q = ceil_quarter(s.len());
    if q >= 1 {
        q
    } else {
        1
    }
}

/// `preview`: whitespace collapsed, cut to `PREVIEW_CHARS` characters.
pub open spec fn preview_text(s: Seq<char>) -> Seq<char> {
    truncate_inline_spec(s, PREVIEW_CHARS as nat)
}

pub open spec fn opt_view(o: Option<String>) -> Option<Seq<char>> {
    match o {
        Some(s) => Some(s@),
        None => None,
    }
}

pub open spec fn id_or_unknown(o: Option<i64>) -> Seq<char> {
    match o {
        Some(id) => int_text(id as int),
        None => "unknown"@,
    }
}

pub open spec fn text_or_unknown(o: Option<String>) -> Seq<char> {
    match o {
        Some(s) => s@,
        None => "unknown"@,
    }
}

pub open spec fn plural(n: int, one: Seq<char>, many: Seq<char>) -> Seq<char> {
    if n == 1 {
        one
    } else {
        many
    }
}

pub open spec fn bool_text(b: bool) -> Seq<char> {
    if b {
        "true"@
    } else {
        "false"@
    }
}

/// `summary_prompt_context`.
pub open spec fn summary_context_text(s: ConversationSummary) -> Seq<char> {
    "The user enabled this conversation summary for prompt context. Use it only as a transparent aid for this chat; the full visible message history follows.\n\nConversation summary v"@
        + int_text(s.version as int) + " covering messages "@ + id_or_unknown(
        s.source_message_start_id,
    ) + "-"@ + id_or_unknown(s.source_message_end_id) + ":\n"@ + s.summary@
}

/// `memory_scope_label`.
pub open spec fn memory_scope_text(m: Memory) -> Seq<char> {
    match m.scope_type {
        MemoryScopeType::Global => "global"@,
        MemoryScopeType::Conversation => match m.scope_id {
            Some(id) => "conversation:"@ + id@,
            None => "conversation"@,
        },
        MemoryScopeType::Project => match m.scope_id {
            Some(id) => "project:"@ + id@,
            None => "project"@,
        },
    }
}

pub open spec fn memory_header() -> Seq<char> {
    "The user enabled these Atlas memories for this chat. Treat them as user-owned context, not hidden model memory. Use them only when relevant, and do not invent additional memories.\n\n"@
}

pub open spec fn memory_line(index: nat, m: Memory) -> Seq<char> {
    dec_digits(index + 1) + ". ["@ + memory_scope_text(m) + (if m.pinned {
        " pinned"@
    } else {
        Seq::empty()
    }) + "] "@ + m.content@ + "\n"@
}

pub open spec fn memory_lines(ms: Seq<Memory>) -> Seq<char>
    decreases ms.len(),
{
    if ms.len() == 0 {
        Seq::empty()
    } else {
        memory_lines(ms.drop_last()) + memory_line((ms.len() - 1) as nat, ms.last())
    }
}

/// `memory_prompt_context`.
pub open spec fn memory_context_text(ms: Seq<Memory>) -> Seq<char> {
    memory_header() + memory_lines(ms)
}

pub open spec fn document_header() -> Seq<char> {
    "The user enabled Atlas local knowledge for this chat. Answer from the provided source excerpts when they are relevant. Cite sources with their bracketed IDs like [S1]. Do not invent citations. If these sources are insufficient, say that the indexed sources do not contain enough information.\n\n"@
}

pub open spec fn source_block(s: GenerationDocumentSourceUse) -> Seq<char> {
    "["@ + s.source_id@ + "] "@ + s.file_name@ + " lines "@ + int_text(s.start_line as int) + "-"@
        + int_text(s.end_line as int) + " (document_id="@ + text_or_unknown(s.document_id)
        + ", chunk_id="@ + text_or_unknown(s.chunk_id) + ")\n"@ + s.content@ + "\n\n"@
}

pub open spec fn source_blocks(ss: Seq<GenerationDocumentSourceUse>) -> Seq<char>
    decreases ss.len(),
{
    if ss.len() == 0 {
        Seq::empty()
    } else {
        source_blocks(ss.drop_last()) + source_block(ss.last())
    }
}

/// `document_prompt_context`.
pub open spec fn document_context_text(ss: Seq<GenerationDocumentSourceUse>) -> Seq<char> {
    document_header() + source_blocks(ss)
}

/// Every document source reaches the prompt whole: the document context
/// holds, as one stretch, the source's line `[id] file lines a-b
/// (document_id=.., chunk_id=..)` followed by the source's text and a blank
/// line.
pub proof fn lemma_document_context_holds_sources(ss: Seq<GenerationDocumentSourceUse>, k: int)
    requires
        0 <= k < ss.len(),
    ensures
        has_infix(
            document_context_text(ss),
            "["@ + ss[k].source_id@ + "] "@ + ss[k].file_name@ + " lines "@ + int_text(
                ss[k].start_line as int,
            ) + "-"@ + int_text(ss[k].end_line as int) + " (document_id="@ + text_or_unknown(
                ss[k].document_id,
            ) + ", chunk_id="@ + text_or_unknown(ss[k].chunk_id) + ")\n"@ + ss[k].content@
                + "\n\n"@,
        ),
        has_infix(document_context_text(ss), ss[k].content@),
{
    lemma_source_blocks_hold(ss, k);
    let s = ss[k];
    let head = "["@ + s.source_id@ + "] "@ + s.file_name@ + " lines "@ + int_text(s.start_line as int)
        + "-"@ + int_text(s.end_line as int) + " (document_id="@ + text_or_unknown(s.document_id)
        + ", chunk_id="@ + text_or_unknown(s.chunk_id) + ")\n"@;
    let block = head + s.content@ + "\n\n"@;
    assert(source_block(s) == block);
    lemma_infix_extend(source_blocks(ss), document_header(), block);
    lemma_infix_self(s.content@);
    lemma_infix_extend(s.content@, head, s.content@);
    assert(head + s.content@ + "\n\n"@ == (head + s.content@) + "\n\n"@);
    lemma_infix_extend(head + s.content@, "\n\n"@, s.content@);
    lemma_infix_within(document_context_text(ss), block, s.content@);
}

/// A stretch of a stretch of a text is a stretch of the text.
proof fn lemma_infix_within(s: Seq<char>, mid: Seq<char>, pat: Seq<char>)
    requires
        has_infix(s, mid),
        has_infix(mid, pat),
    ensures
        has_infix(s, pat),
{
    let i = choose|i: int| 0 <= i && i + mid.len() <= s.len() && #[trigger] s.subrange(i, i + mid.len()) == mid;
    let j = choose|j: int| 0 <= j && j + pat.len() <= mid.len() && #[trigger] mid.subrange(j, j + pat.len()) == pat;
    let o = i + j;
    assert(s.subrange(o, o + pat.len()) =~= mid.subrange(j, j + pat.len()));
}

/// Each source's block occurs in the blocks of all sources.
proof fn lemma_source_blocks_hold(ss: Seq<GenerationDocumentSourceUse>, k: int)
    requires
        0 <= k < ss.len(),
    ensures
        has_infix(source_blocks(ss), source_block(ss[k])),
    decreases ss.len(),
{
    let rest = ss.drop_last();
    if k == ss.len() - 1 {
        lemma_infix_self(source_block(ss[k]));
        lemma_infix_extend(source_block(ss[k]), source_blocks(rest), source_block(ss[k]));
    } else {
        lemma_source_blocks_hold(rest, k);
        assert(rest[k] == ss[k]);
        lemma_infix_extend(source_blocks(rest), source_block(ss.last()), source_block(ss[k]));
    }
}

// ---------------------------------------------------------------------------
// Entries: a prompt message (if any) and the trace item that records it
// ---------------------------------------------------------------------------

pub struct EntryView {
    pub message: Option<(Seq<char>, Seq<char>)>,
    pub item_type: GenerationContextItemType,
    pub item_id: Option<Seq<char>>,
    pub label: Seq<char>,
    pub tokens: int,
    pub meta: Seq<(Seq<char>, Seq<char>)>,
}

pub open spec fn system_hash_text() -> Seq<char> {
    hex_digits(fnv1a(vstd::utf8::encode_utf8(system_prompt_text())) as nat, 16)
}

pub open spec fn system_entry() -> EntryView {
    EntryView {
        message: Some(("system"@, system_prompt_text())),
        item_type: GenerationContextItemType::SystemPrompt,
        item_id: Some("hash:"@ + system_hash_text()),
        label: "Atlas default system prompt"@,
        tokens: est_tokens(system_prompt_text()),
        meta: seq![("hash"@, system_hash_text()), ("preview"@, preview_text(system_prompt_text()))],
    }
}

pub open spec fn summary_entry(s: ConversationSummary) -> EntryView {
    EntryView {
        message: Some(("system"@, summary_context_text(s))),
        item_type: GenerationContextItemType::Summary,
        item_id: Some(s.id@),
        label: "Conversation summary v"@ + int_text(s.version as int),
        tokens: est_tokens(summary_context_text(s)),
        meta: seq![
            ("model"@, s.model_name@),
            ("source_message_start_id"@, id_or_unknown(s.source_message_start_id)),
            ("source_message_end_id"@, id_or_unknown(s.source_message_end_id)),
            ("preview"@, preview_text(s.summary@)),
        ],
    }
}

pub open spec fn memory_block_entry(ms: Seq<Memory>) -> EntryView {
    EntryView {
        message: Some(("system"@, memory_context_text(ms))),
        item_type: GenerationContextItemType::Memory,
        item_id: None,
        label: dec_digits(ms.len()) + " enabled "@ + plural(ms.len() as int, "memory"@, "memories"@),
        tokens: est_tokens(memory_context_text(ms)),
        meta: seq![("memory_ids"@, join_with(ms.map_values(|m: Memory| m.id@), ","@))],
    }
}

pub open spec fn memory_item_entry(m: Memory) -> EntryView {
    EntryView {
        message: None,
        item_type: GenerationContextItemType::Memory,
        item_id: Some(m.id@),
        label: (if m.pinned {
            "Pinned memory"@
        } else {
            "Enabled memory"@
        }) + ": "@ + preview_text(m.content@),
        tokens: est_tokens(m.content@),
        meta: seq![
            ("scope"@, memory_scope_text(m)),
            ("pinned"@, bool_text(m.pinned)),
            ("preview"@, preview_text(m.content@)),
        ],
    }
}

pub open spec fn prior_entry(m: ChatMessage) -> EntryView {
    EntryView {
        message: Some((m.role@, m.content@)),
        item_type: GenerationContextItemType::PriorMessage,
        item_id: Some(int_text(m.id as int)),
        label: m.role@ + " message "@ + int_text(m.id as int),
        tokens: est_tokens(m.content@),
        meta: seq![("role"@, m.role@), ("preview"@, preview_text(m.content@))],
    }
}

pub open spec fn truncation_entry(omitted: int) -> EntryView {
    EntryView {
        message: None,
        item_type: GenerationContextItemType::TruncationNotice,
        item_id: None,
        label: "Omitted "@ + int_text(omitted) + " older prior "@ + plural(
            omitted,
            "message"@,
            "messages"@,
        ) + " to stay under the context budget"@,
        tokens: 0,
        meta: seq![("omitted_prior_message_count"@, int_text(omitted))],
    }
}

pub open spec fn doc_block_entry(ss: Seq<GenerationDocumentSourceUse>) -> EntryView {
    EntryView {
        message: Some(("system"@, document_context_text(ss))),
        item_type: GenerationContextItemType::DocumentChunk,
        item_id: None,
        label: dec_digits(ss.len()) + " retrieved source "@ + plural(
            ss.len() as int,
            "chunk"@,
            "chunks"@,
        ),
        tokens: est_tokens(document_context_text(ss)),
        meta: seq![
            ("source_ids"@, join_with(ss.map_values(|s: GenerationDocumentSourceUse| s.source_id@), ","@)),
        ],
    }
}

pub open spec fn source_item_entry(s: GenerationDocumentSourceUse) -> EntryView {
    EntryView {
        message: None,
        item_type: GenerationContextItemType::DocumentChunk,
        item_id: opt_view(s.chunk_id),
        label: "["@ + s.source_id@ + "] "@ + s.file_name@ + " lines "@ + int_text(s.start_line as int)
            + "-"@ + int_text(s.end_line as int),
        tokens: est_tokens(s.content@),
        meta: seq![
            ("source_id"@, s.source_id@),
            ("file_name"@, s.file_name@),
            ("path"@, s.path@),
            ("preview"@, preview_text(s.content@)),
        ],
    }
}

pub open spec fn knowledge_none_entry() -> EntryView {
    EntryView {
        message: Some(("system"@, no_knowledge_text())),
        item_type: GenerationContextItemType::DocumentChunk,
        item_id: None,
        label: "No matching knowledge chunks retrieved"@,
        tokens: est_tokens(no_knowledge_text()),
        meta: seq![("knowledge_enabled"@, "true"@)],
    }
}

pub open spec fn user_entry(m: ChatMessage) -> EntryView {
    EntryView {
        message: Some((m.role@, m.content@)),
        item_type: GenerationContextItemType::UserMessage,
        item_id: Some(int_text(m.id as int)),
        label: "Current user message "@ + int_text(m.id as int),
        tokens: est_tokens(m.content@),
        meta: seq![("preview"@, preview_text(m.content@))],
    }
}

pub open spec fn options_entry(model: Seq<char>, prompt_tokens: int) -> EntryView {
    EntryView {
        message: None,
        item_type: GenerationContextItemType::ModelOptions,
        item_id: Some(model),
        label: "Ollama chat request for "@ + model,
        tokens: 0,
        meta: seq![
            ("model"@, model),
            ("stream"@, "true"@),
            ("max_context_token_estimate"@, "12000"@),
            ("prompt_token_estimate"@, int_text(prompt_tokens)),
        ],
    }
}

/// Sum of the token estimates of the entries that go to the model.
pub open spec fn prompt_tokens(es: Seq<EntryView>) -> int
    decreases es.len(),
{
    if es.len() == 0 {
        0
    } else {
        prompt_tokens(es.drop_last()) + if es.last().message is Some {
            es.last().tokens
        } else {
            0
        }
    }
}

pub open spec fn head_entries(summary: Option<ConversationSummary>, ms: Seq<Memory>) -> Seq<EntryView> {
    seq![system_entry()] + (match summary {
        Some(s) => seq![summary_entry(s)],
        None => Seq::empty(),
    }) + (if ms.len() > 0 {
        seq![memory_block_entry(ms)] + ms.map_values(|m: Memory| memory_item_entry(m))
    } else {
        Seq::empty()
    })
}

pub open spec fn doc_entries(ss: Seq<GenerationDocumentSourceUse>, knowledge: bool) -> Seq<EntryView> {
    if ss.len() > 0 {
        seq![doc_block_entry(ss)] + ss.map_values(|s: GenerationDocumentSourceUse| source_item_entry(s))
    } else if knowledge {
        seq![knowledge_none_entry()]
    } else {
        Seq::empty()
    }
}

/// Tokens set aside for the document context before earlier messages are chosen.
pub open spec fn doc_reserve(ss: Seq<GenerationDocumentSourceUse>, knowledge: bool) -> int {
    if ss.len() > 0 {
        est_tokens(document_context_text(ss))
    } else if knowledge {
        est_tokens(no_knowledge_text())
    } else {
        0
    }
}

/// Earlier messages, newest first, are kept while their estimates fit the
/// remaining budget; the rest are counted as omitted.  The kept messages are
/// returned in their original order.
pub open spec fn select_prior(prior: Seq<ChatMessage>, budget: int) -> (Seq<ChatMessage>, int)
    decreases prior.len(),
{
    if prior.len() == 0 {
        (Seq::empty(), 0)
    } else {
        let m = prior.last();
        let t = est_tokens(m.content@);
        if t <= budget {
            let (s, o) = select_prior(prior.drop_last(), budget - t);
            (s.push(m), o)
        } else {
            let (s, o) = select_prior(prior.drop_last(), budget);
            (s, o + 1)
        }
    }
}

/// Index of the newest message whose role is "user", or -1.
pub open spec fn last_user_index(ms: Seq<ChatMessage>) -> int
    decreases ms.len(),
{
    if ms.len() == 0 {
        -1
    } else if ms.last().role@ == "user"@ {
        ms.len() - 1
    } else {
        last_user_index(ms.drop_last())
    }
}

/// Budget for earlier messages.
pub open spec fn prior_budget(
    head: Seq<EntryView>,
    ss: Seq<GenerationDocumentSourceUse>,
    knowledge: bool,
    latest: ChatMessage,
) -> int {
    let b = MAX_CONTEXT_TOKEN_ESTIMATE - prompt_tokens(head) - doc_reserve(ss, knowledge) - est_tokens(
        latest.content@,
    ) - PRIOR_MESSAGE_RESERVE_TOKENS;
    if b > 0 {
        b
    } else {
        0
    }
}

/// All entries before the final model-options entry.
pub open spec fn body_entries(
    messages: Seq<ChatMessage>,
    summary: Option<ConversationSummary>,
    ms: Seq<Memory>,
    ss: Seq<GenerationDocumentSourceUse>,
    knowledge: bool,
) -> Seq<EntryView> {
    let l = last_user_index(messages);
    let latest = messages[l];
    let head = head_entries(summary, ms);
    let (selected, omitted) = select_prior(messages.take(l), prior_budget(head, ss, knowledge, latest));
    let priors = selected.map_values(|m: ChatMessage| prior_entry(m));
    let trunc = if omitted > 0 {
        seq![truncation_entry(omitted)]
    } else {
        Seq::empty()
    };
    head + priors + trunc + doc_entries(ss, knowledge) + seq![user_entry(latest)]
}

pub open spec fn context_entries(
    model: Seq<char>,
    messages: Seq<ChatMessage>,
    summary: Option<ConversationSummary>,
    ms: Seq<Memory>,
    ss: Seq<GenerationDocumentSourceUse>,
    knowledge: bool,
) -> Seq<EntryView> {
    let body = body_entries(messages, summary, ms, ss, knowledge);
    body.push(options_entry(model, prompt_tokens(body)))
}

// ---------------------------------------------------------------------------
// The assembled result
// ---------------------------------------------------------------------------

pub struct ItemView {
    pub item_type: GenerationContextItemType,
    pub item_id: Option<Seq<char>>,
    pub label: Seq<char>,
    pub token_count_estimate: int,
    pub order_index: int,
    pub metadata_json: Option<Seq<char>>,
}

pub struct AssembledView {
    pub messages: Seq<(Seq<char>, Seq<char>)>,
    pub items: Seq<ItemView>,
}

impl View for GenerationContextItemDraft {
    type V = ItemView;

    open spec fn view(&self) -> ItemView {
        ItemView {
            item_type: self.item_type,
            item_id: opt_view(self.item_id),
            label: self.label@,
            token_count_estimate: self.token_count_estimate as int,
            order_index: self.order_index as int,
            metadata_json: opt_view(self.metadata_json),
        }
    }
}

impl View for AssembledContext {
    type V = AssembledView;

    open spec fn view(&self) -> AssembledView {
        AssembledView {
            messages: self.messages@.map_values(|m: ContextPromptMessage| (m.role@, m.content@)),
            items: self.items@.map_values(|i: GenerationContextItemDraft| i@),
        }
    }
}

pub open spec fn ok_text(r: Result<Seq<char>, Seq<char>>) -> Seq<char> {
    match r {
        Ok(t) => t,
        Err(_) => Seq::empty(),
    }
}

pub open spec fn entry_item(e: EntryView, k: int) -> ItemView {
    ItemView {
        item_type: e.item_type,
        item_id: e.item_id,
        label: e.label,
        token_count_estimate: e.tokens,
        order_index: k,
        metadata_json: Some(ok_text(json_object_text(e.meta))),
    }
}

pub open spec fn entry_messages(es: Seq<EntryView>) -> Seq<(Seq<char>, Seq<char>)>
    decreases es.len(),
{
    if es.len() == 0 {
        Seq::empty()
    } else {
        match es.last().message {
            Some(m) => entry_messages(es.drop_last()).push(m),
            None => entry_messages(es.drop_last()),
        }
    }
}

/// The error of the first entry whose metadata cannot be serialised.
pub open spec fn first_meta_error(es: Seq<EntryView>) -> Option<Seq<char>>
    decreases es.len(),
{
    if es.len() == 0 {
        None
    } else {
        match first_meta_error(es.drop_last()) {
            Some(e) => Some(e),
            None => match json_object_text(es.last().meta) {
                Err(e) => Some(e),
                Ok(_) => None,
            },
        }
    }
}

pub open spec fn assembled_from(es: Seq<EntryView>) -> AssembledView {
    AssembledView {
        messages: entry_messages(es),
        items: Seq::new(es.len(), |k: int| entry_item(es[k], k)),
    }
}

/// What `assemble` answers.
pub open spec fn assemble_spec(
    model: Seq<char>,
    messages: Seq<ChatMessage>,
    summary: Option<ConversationSummary>,
    ms: Seq<Memory>,
    ss: Seq<GenerationDocumentSourceUse>,
    knowledge: bool,
) -> Result<AssembledView, Seq<char>> {
    if last_user_index(messages) < 0 {
        Err("Chat has no user message to send to Ollama"@)
    } else {
        let es = context_entries(model, messages, summary, ms, ss, knowledge);
        match first_meta_error(es) {
            Some(e) => Err(e),
            None => Ok(assembled_from(es)),
        }
    }
}

pub open spec fn opt_ref_view(o: Option<&ConversationSummary>) -> Option<ConversationSummary> {
    match o {
        Some(s) => Some(*s),
        None => None,
    }
}

pub open spec fn assembled_result_view(r: Result<AssembledContext, String>) -> Result<AssembledView, Seq<char>> {
    match r {
        Ok(a) => Ok(a@),
        Err(e) => Err(e@),
    }
}


// ---------------------------------------------------------------------------
// Executable text builders
// ---------------------------------------------------------------------------

/// `estimate_tokens`.
pub fn estimate_tokens(content: &Vec<char>) -> (r: i64)
    ensures
        r == est_tokens(content@),
{
    let n = content.len();
    let q = n / 4 + if n % 4 != 0 {
        1usize
    } else {
        0usize
    };
    assert(q as int == ceil_quarter(n as nat));
    if q >= 1 {
        q as i64
    } else {
        1
    }
}

/// `preview`.
pub fn preview(content: &Vec<char>) -> (r: Vec<char>)
    ensures
        r@ == preview_text(content@),
{
    truncate_inline_chars(content, PREVIEW_CHARS)
}

/// A trace item for a part of the prompt: its token estimate is that of the
/// part's text, and it is numbered when it is pushed.
pub fn item(
    item_type: GenerationContextItemType,
    item_id: Option<String>,
    label: String,
    content: &str,
    metadata_json: Option<String>,
) -> (r: GenerationContextItemDraft)
    ensures
        r.item_type == item_type,
        r.item_id == item_id,
        r.label == label,
        r.token_count_estimate == est_tokens(content@),
        r.order_index == 0,
        r.metadata_json == metadata_json,
{
    let token_count_estimate = estimate_tokens(&chars_of(content));
    GenerationContextItemDraft {
        item_type,
        item_id,
        label,
        token_count_estimate,
        order_index: 0,
        metadata_json,
    }
}

/// Appends a trace item under the next order index.
pub fn push_item(
    items: &mut Vec<GenerationContextItemDraft>,
    order_index: &mut i64,
    item: GenerationContextItemDraft,
)
    requires
        *old(order_index) < i64::MAX,
    ensures
        final(items)@ == old(items)@.push(
            (GenerationContextItemDraft { order_index: *old(order_index), ..item }),
        ),
        *final(order_index) == *old(order_index) + 1,
{
    let mut item = item;
    item.order_index = *order_index;
    *order_index = *order_index + 1;
    items.push(item);
}

/// Appends a trace item that stands for no prompt message.
pub fn push_metadata_item(
    items: &mut Vec<GenerationContextItemDraft>,
    order_index: &mut i64,
    item_type: GenerationContextItemType,
    item_id: Option<String>,
    label: String,
    token_count_estimate: i64,
    metadata_json: Option<String>,
)
    requires
        *old(order_index) < i64::MAX,
    ensures
        final(items)@ == old(items)@.push(
            (GenerationContextItemDraft {
                item_type,
                item_id,
                label,
                token_count_estimate,
                order_index: *old(order_index),
                metadata_json,
            }),
        ),
        *final(order_index) == *old(order_index) + 1,
{
    push_item(
        items,
        order_index,
        GenerationContextItemDraft {
            item_type,
            item_id,
            label,
            token_count_estimate,
            order_index: *order_index,
            metadata_json,
        },
    );
}

/// Appends a prompt message with its trace item, and counts the item's
/// tokens into the prompt's estimate.
pub fn push_prompt_message(
    prompt_messages: &mut Vec<ContextPromptMessage>,
    items: &mut Vec<GenerationContextItemDraft>,
    order_index: &mut i64,
    prompt_message: ContextPromptMessage,
    item: GenerationContextItemDraft,
    prompt_token_estimate: &mut i64,
)
    requires
        *old(order_index) < i64::MAX,
        i64::MIN <= *old(prompt_token_estimate) + item.token_count_estimate <= i64::MAX,
    ensures
        final(prompt_messages)@ == old(prompt_messages)@.push(prompt_message),
        final(items)@ == old(items)@.push(
            (GenerationContextItemDraft { order_index: *old(order_index), ..item }),
        ),
        *final(order_index) == *old(order_index) + 1,
        *final(prompt_token_estimate) == *old(prompt_token_estimate) + item.token_count_estimate,
{
    *prompt_token_estimate = *prompt_token_estimate + item.token_count_estimate;
    prompt_messages.push(prompt_message);
    push_item(items, order_index, item);
}

fn push_id_or_unknown(out: &mut Vec<char>, id: Option<i64>)
    ensures
        final(out)@ == old(out)@ + id_or_unknown(id),
{
    match id {
        Some(id) => push_int(out, id),
        None => extend_str(out, "unknown"),
    }
}

fn push_text_or_unknown(out: &mut Vec<char>, text: &Option<String>)
    ensures
        final(out)@ == old(out)@ + text_or_unknown(*text),
{
    match text {
        Some(t) => extend_str(out, t.as_str()),
        None => extend_str(out, "unknown"),
    }
}

fn pair(key: &str, value: &Vec<char>) -> (r: (String, String))
    ensures
        r.0@ == key@,
        r.1@ == value@,
{
    (String::from_str(key), string_of(value))
}

/// `summary_prompt_context`.
pub fn summary_prompt_context(summary: &ConversationSummary) -> (r: Vec<char>)
    ensures
        r@ == summary_context_text(*summary),
{
    let mut out = chars_of(
        "The user enabled this conversation summary for prompt context. Use it only as a transparent aid for this chat; the full visible message history follows.\n\nConversation summary v",
    );
    push_int(&mut out, summary.version);
    extend_str(&mut out, " covering messages ");
    push_id_or_unknown(&mut out, summary.source_message_start_id);
    extend_str(&mut out, "-");
    push_id_or_unknown(&mut out, summary.source_message_end_id);
    extend_str(&mut out, ":\n");
    extend_str(&mut out, summary.summary.as_str());
    out
}

/// `memory_scope_label`.
pub fn memory_scope_label(memory: &Memory) -> (r: Vec<char>)
    ensures
        r@ == memory_scope_text(*memory),
{
    match memory.scope_type {
        MemoryScopeType::Global => chars_of("global"),
        MemoryScopeType::Conversation => match &memory.scope_id {
            Some(id) => {
                let mut out = chars_of("conversation:");
                extend_str(&mut out, id.as_str());
                out
            },
            None => chars_of("conversation"),
        },
        MemoryScopeType::Project => match &memory.scope_id {
            Some(id) => {
                let mut out = chars_of("project:");
                extend_str(&mut out, id.as_str());
                out
            },
            None => chars_of("project"),
        },
    }
}

/// `memory_prompt_context`.
pub fn memory_prompt_context(memories: &[Memory]) -> (r: Vec<char>)
    ensures
        r@ == memory_context_text(memories@),
{
    let mut out = chars_of(
        "The user enabled these Atlas memories for this chat. Treat them as user-owned context, not hidden model memory. Use them only when relevant, and do not invent additional memories.\n\n",
    );
    let mut i: usize = 0;
    while i < memories.len()
        invariant
            i <= memories@.len(),
            out@ == memory_header() + memory_lines(memories@.take(i as int)),
        decreases memories@.len() - i,
    {
        let ghost before = out@;
        let ghost t = memories@.take(i as int + 1);
        assert(t.drop_last() =~= memories@.take(i as int));
        let m = &memories[i];
        push_dec(&mut out, i as u64 + 1);
        extend_str(&mut out, ". [");
        let scope = memory_scope_label(m);
        extend_chars(&mut out, &scope);
        if m.pinned {
            extend_str(&mut out, " pinned");
        }
        extend_str(&mut out, "] ");
        extend_str(&mut out, m.content.as_str());
        extend_str(&mut out, "\n");
        assert(out@ =~= before + memory_line(i as nat, *m));
        i = i + 1;
    }
    assert(memories@.take(memories@.len() as int) =~= memories@);
    out
}

/// `document_prompt_context`.
#[verifier::spinoff_prover]
pub fn document_prompt_context(sources: &[GenerationDocumentSourceUse]) -> (r: Vec<char>)
    ensures
        r@ == document_context_text(sources@),
{
    let mut out = chars_of(
        "The user enabled Atlas local knowledge for this chat. Answer from the provided source excerpts when they are relevant. Cite sources with their bracketed IDs like [S1]. Do not invent citations. If these sources are insufficient, say that the indexed sources do not contain enough information.\n\n",
    );
    let mut i: usize = 0;
    while i < sources.len()
        invariant
            i <= sources@.len(),
            out@ == document_header() + source_blocks(sources@.take(i as int)),
        decreases sources@.len() - i,
    {
        let ghost before = out@;
        let ghost t = sources@.take(i as int + 1);
        assert(t.drop_last() =~= sources@.take(i as int));
        let s = &sources[i];
        extend_str(&mut out, "[");
        extend_str(&mut out, s.source_id.as_str());
        extend_str(&mut out, "] ");
        extend_str(&mut out, s.file_name.as_str());
        extend_str(&mut out, " lines ");
        push_int(&mut out, s.start_line);
        extend_str(&mut out, "-");
        push_int(&mut out, s.end_line);
        extend_str(&mut out, " (document_id=");
        push_text_or_unknown(&mut out, &s.document_id);
        extend_str(&mut out, ", chunk_id=");
        push_text_or_unknown(&mut out, &s.chunk_id);
        extend_str(&mut out, ")\n");
        extend_str(&mut out, s.content.as_str());
        extend_str(&mut out, "\n\n");
        assert(out@ =~= before + source_block(*s));
        i = i + 1;
    }
    assert(sources@.take(sources@.len() as int) =~= sources@);
    out
}


// ---------------------------------------------------------------------------
// Executable entries
// ---------------------------------------------------------------------------

/// A prompt message (if any) and the trace item that records it, before the
/// item's metadata is serialised and its position assigned.
struct ContextEntry {
    message: Option<ContextPromptMessage>,
    item_type: GenerationContextItemType,
    item_id: Option<String>,
    label: String,
    tokens: i64,
    metadata: Vec<(String, String)>,
}

pub open spec fn message_view(m: Option<ContextPromptMessage>) -> Option<(Seq<char>, Seq<char>)> {
    match m {
        Some(m) => Some((m.role@, m.content@)),
        None => None,
    }
}

impl View for ContextEntry {
    type V = EntryView;

    closed spec fn view(&self) -> EntryView {
        EntryView {
            message: message_view(self.message),
            item_type: self.item_type,
            item_id: opt_view(self.item_id),
            label: self.label@,
            tokens: self.tokens as int,
            meta: pairs_view(self.metadata@),
        }
    }
}

spec fn entry_views(v: Seq<ContextEntry>) -> Seq<EntryView> {
    v.map_values(|e: ContextEntry| e@)
}

fn prompt_message(role: &str, content: &Vec<char>) -> (r: ContextPromptMessage)
    ensures
        r.role@ == role@,
        r.content@ == content@,
{
    ContextPromptMessage { role: String::from_str(role), content: string_of(content) }
}

/// The FNV-1a hash of bytes as sixteen lower-case hex digits, as the
/// trace records the system prompt.
pub fn stable_hash(bytes: &[u8]) -> (r: String)
    ensures
        r@ == hex_digits(fnv1a(bytes@) as nat, 16),
{
    hash_bytes(bytes)
}

fn system_entry_exec() -> (e: ContextEntry)
    ensures
        e@ == system_entry(),
{
    let text = chars_of(system_prompt());
    let hash = stable_hash(system_prompt().as_bytes());
    let mut id = chars_of("hash:");
    extend_str(&mut id, hash.as_str());
    let hash_chars = chars_of(hash.as_str());
    let pv = preview(&text);
    let metadata = vec![pair("hash", &hash_chars), pair("preview", &pv)];
    let e = ContextEntry {
        message: Some(prompt_message("system", &text)),
        item_type: GenerationContextItemType::SystemPrompt,
        item_id: Some(string_of(&id)),
        label: String::from_str("Atlas default system prompt"),
        tokens: estimate_tokens(&text),
        metadata,
    };
    assert(pairs_view(e.metadata@) =~= system_entry().meta);
    e
}

fn summary_entry_exec(summary: &ConversationSummary) -> (e: ContextEntry)
    ensures
        e@ == summary_entry(*summary),
{
    let content = summary_prompt_context(summary);
    let mut label = chars_of("Conversation summary v");
    push_int(&mut label, summary.version);
    let model = chars_of(summary.model_name.as_str());
    let mut start: Vec<char> = Vec::new();
    push_id_or_unknown(&mut start, summary.source_message_start_id);
    let mut end: Vec<char> = Vec::new();
    push_id_or_unknown(&mut end, summary.source_message_end_id);
    let text = chars_of(summary.summary.as_str());
    let pv = preview(&text);
    let metadata = vec![
        pair("model", &model),
        pair("source_message_start_id", &start),
        pair("source_message_end_id", &end),
        pair("preview", &pv),
    ];
    let e = ContextEntry {
        message: Some(prompt_message("system", &content)),
        item_type: GenerationContextItemType::Summary,
        item_id: Some(summary.id.clone()),
        label: string_of(&label),
        tokens: estimate_tokens(&content),
        metadata,
    };
    assert(start@ =~= id_or_unknown(summary.source_message_start_id));
    assert(end@ =~= id_or_unknown(summary.source_message_end_id));
    assert(pairs_view(e.metadata@) =~= summary_entry(*summary).meta);
    e
}

fn plural_text(n: u64, one: &str, many: &str) -> (r: Vec<char>)
    ensures
        r@ == plural(n as int, one@, many@),
{
    if n == 1 {
        chars_of(one)
    } else {
        chars_of(many)
    }
}

fn memory_block_entry_exec(memories: &[Memory]) -> (e: ContextEntry)
    requires
        memories@.len() < u64::MAX,
    ensures
        e@ == memory_block_entry(memories@),
{
    let content = memory_prompt_context(memories);
    let mut label: Vec<char> = Vec::new();
    push_dec(&mut label, memories.len() as u64);
    extend_str(&mut label, " enabled ");
    let word = plural_text(memories.len() as u64, "memory", "memories");
    extend_chars(&mut label, &word);
    let mut ids: Vec<Vec<char>> = Vec::new();
    let mut i: usize = 0;
    while i < memories.len()
        invariant
            i <= memories@.len(),
            views(ids@) == memories@.take(i as int).map_values(|m: Memory| m.id@),
        decreases memories@.len() - i,
    {
        let id = chars_of(memories[i].id.as_str());
        let ghost before = views(ids@);
        ids.push(id);
        assert(views(ids@) =~= before.push(id@));
        assert(memories@.take(i as int + 1).map_values(|m: Memory| m.id@) =~= memories@.take(
            i as int,
        ).map_values(|m: Memory| m.id@).push(memories@[i as int].id@));
        i = i + 1;
    }
    assert(memories@.take(memories@.len() as int) =~= memories@);
    let comma = chars_of(",");
    let joined = join_chars(&ids, &comma);
    let metadata = vec![pair("memory_ids", &joined)];
    let e = ContextEntry {
        message: Some(prompt_message("system", &content)),
        item_type: GenerationContextItemType::Memory,
        item_id: None,
        label: string_of(&label),
        tokens: estimate_tokens(&content),
        metadata,
    };
    assert(label@ =~= memory_block_entry(memories@).label);
    assert(pairs_view(e.metadata@) =~= memory_block_entry(memories@).meta);
    e
}

fn memory_item_entry_exec(memory: &Memory) -> (e: ContextEntry)
    ensures
        e@ == memory_item_entry(*memory),
{
    let text = chars_of(memory.content.as_str());
    let pv = preview(&text);
    let mut label = if memory.pinned {
        chars_of("Pinned memory")
    } else {
        chars_of("Enabled memory")
    };
    extend_str(&mut label, ": ");
    extend_chars(&mut label, &pv);
    let scope = memory_scope_label(memory);
    let pinned = if memory.pinned {
        chars_of("true")
    } else {
        chars_of("false")
    };
    let metadata = vec![pair("scope", &scope), pair("pinned", &pinned), pair("preview", &pv)];
    let e = ContextEntry {
        message: None,
        item_type: GenerationContextItemType::Memory,
        item_id: Some(memory.id.clone()),
        label: string_of(&label),
        tokens: estimate_tokens(&text),
        metadata,
    };
    assert(label@ =~= memory_item_entry(*memory).label);
    assert(pairs_view(e.metadata@) =~= memory_item_entry(*memory).meta);
    e
}

fn prior_entry_exec(message: &ChatMessage) -> (e: ContextEntry)
    ensures
        e@ == prior_entry(*message),
{
    let text = chars_of(message.content.as_str());
    let role = chars_of(message.role.as_str());
    let mut id: Vec<char> = Vec::new();
    push_int(&mut id, message.id);
    let mut label = chars_of(message.role.as_str());
    extend_str(&mut label, " message ");
    extend_chars(&mut label, &id);
    let pv = preview(&text);
    let metadata = vec![pair("role", &role), pair("preview", &pv)];
    let e = ContextEntry {
        message: Some(ContextPromptMessage { role: message.role.clone(), content: message.content.clone() }),
        item_type: GenerationContextItemType::PriorMessage,
        item_id: Some(string_of(&id)),
        label: string_of(&label),
        tokens: estimate_tokens(&text),
        metadata,
    };
    assert(id@ =~= int_text(message.id as int));
    assert(label@ =~= prior_entry(*message).label);
    assert(pairs_view(e.metadata@) =~= prior_entry(*message).meta);
    e
}

fn truncation_entry_exec(omitted: i64) -> (e: ContextEntry)
    requires
        omitted >= 0,
    ensures
        e@ == truncation_entry(omitted as int),
{
    let mut count: Vec<char> = Vec::new();
    push_int(&mut count, omitted);
    let mut label = chars_of("Omitted ");
    extend_chars(&mut label, &count);
    extend_str(&mut label, " older prior ");
    let word = plural_text(omitted as u64, "message", "messages");
    extend_chars(&mut label, &word);
    extend_str(&mut label, " to stay under the context budget");
    let metadata = vec![pair("omitted_prior_message_count", &count)];
    let e = ContextEntry {
        message: None,
        item_type: GenerationContextItemType::TruncationNotice,
        item_id: None,
        label: string_of(&label),
        tokens: 0,
        metadata,
    };
    assert(count@ =~= int_text(omitted as int));
    assert(label@ =~= truncation_entry(omitted as int).label);
    assert(pairs_view(e.metadata@) =~= truncation_entry(omitted as int).meta);
    e
}

fn doc_block_entry_exec(sources: &[GenerationDocumentSourceUse]) -> (e: ContextEntry)
    requires
        sources@.len() < u64::MAX,
    ensures
        e@ == doc_block_entry(sources@),
{
    let content = document_prompt_context(sources);
    let mut label: Vec<char> = Vec::new();
    push_dec(&mut label, sources.len() as u64);
    extend_str(&mut label, " retrieved source ");
    let word = plural_text(sources.len() as u64, "chunk", "chunks");
    extend_chars(&mut label, &word);
    let mut ids: Vec<Vec<char>> = Vec::new();
    let mut i: usize = 0;
    while i < sources.len()
        invariant
            i <= sources@.len(),
            views(ids@) == sources@.take(i as int).map_values(
                |s: GenerationDocumentSourceUse| s.source_id@,
            ),
        decreases sources@.len() - i,
    {
        let id = chars_of(sources[i].source_id.as_str());
        let ghost before = views(ids@);
        ids.push(id);
        assert(views(ids@) =~= before.push(id@));
        assert(sources@.take(i as int + 1).map_values(|s: GenerationDocumentSourceUse| s.source_id@)
            =~= sources@.take(i as int).map_values(
            |s: GenerationDocumentSourceUse| s.source_id@,
        ).push(sources@[i as int].source_id@));
        i = i + 1;
    }
    assert(sources@.take(sources@.len() as int) =~= sources@);
    let comma = chars_of(",");
    let joined = join_chars(&ids, &comma);
    let metadata = vec![pair("source_ids", &joined)];
    let e = ContextEntry {
        message: Some(prompt_message("system", &content)),
        item_type: GenerationContextItemType::DocumentChunk,
        item_id: None,
        label: string_of(&label),
        tokens: estimate_tokens(&content),
        metadata,
    };
    assert(label@ =~= doc_block_entry(sources@).label);
    assert(pairs_view(e.metadata@) =~= doc_block_entry(sources@).meta);
    e
}

fn source_item_entry_exec(source: &GenerationDocumentSourceUse) -> (e: ContextEntry)
    ensures
        e@ == source_item_entry(*source),
{
    let text = chars_of(source.content.as_str());
    let mut label = chars_of("[");
    extend_str(&mut label, source.source_id.as_str());
    extend_str(&mut label, "] ");
    extend_str(&mut label, source.file_name.as_str());
    extend_str(&mut label, " lines ");
    push_int(&mut label, source.start_line);
    extend_str(&mut label, "-");
    push_int(&mut label, source.end_line);
    let sid = chars_of(source.source_id.as_str());
    let fname = chars_of(source.file_name.as_str());
    let path = chars_of(source.path.as_str());
    let pv = preview(&text);
    let metadata = vec![
        pair("source_id", &sid),
        pair("file_name", &fname),
        pair("path", &path),
        pair("preview", &pv),
    ];
    let e = ContextEntry {
        message: None,
        item_type: GenerationContextItemType::DocumentChunk,
        item_id: source.chunk_id.clone(),
        label: string_of(&label),
        tokens: estimate_tokens(&text),
        metadata,
    };
    assert(label@ =~= source_item_entry(*source).label);
    assert(pairs_view(e.metadata@) =~= source_item_entry(*source).meta);
    e
}

fn knowledge_none_entry_exec() -> (e: ContextEntry)
    ensures
        e@ == knowledge_none_entry(),
{
    let content = chars_of(no_knowledge_sources_context());
    let t = chars_of("true");
    let metadata = vec![pair("knowledge_enabled", &t)];
    let e = ContextEntry {
        message: Some(prompt_message("system", &content)),
        item_type: GenerationContextItemType::DocumentChunk,
        item_id: None,
        label: String::from_str("No matching knowledge chunks retrieved"),
        tokens: estimate_tokens(&content),
        metadata,
    };
    assert(pairs_view(e.metadata@) =~= knowledge_none_entry().meta);
    e
}

fn user_entry_exec(message: &ChatMessage) -> (e: ContextEntry)
    ensures
        e@ == user_entry(*message),
{
    let text = chars_of(message.content.as_str());
    let mut id: Vec<char> = Vec::new();
    push_int(&mut id, message.id);
    let mut label = chars_of("Current user message ");
    extend_chars(&mut label, &id);
    let pv = preview(&text);
    let metadata = vec![pair("preview", &pv)];
    let e = ContextEntry {
        message: Some(ContextPromptMessage { role: message.role.clone(), content: message.content.clone() }),
        item_type: GenerationContextItemType::UserMessage,
        item_id: Some(string_of(&id)),
        label: string_of(&label),
        tokens: estimate_tokens(&text),
        metadata,
    };
    assert(id@ =~= int_text(message.id as int));
    assert(label@ =~= user_entry(*message).label);
    assert(pairs_view(e.metadata@) =~= user_entry(*message).meta);
    e
}

fn options_entry_exec(model: &str, prompt_token_estimate: i64) -> (e: ContextEntry)
    ensures
        e@ == options_entry(model@, prompt_token_estimate as int),
{
    let m = chars_of(model);
    let mut label = chars_of("Ollama chat request for ");
    extend_str(&mut label, model);
    let t = chars_of("true");
    let max = chars_of("12000");
    let mut pt: Vec<char> = Vec::new();
    push_int(&mut pt, prompt_token_estimate);
    let metadata = vec![
        pair("model", &m),
        pair("stream", &t),
        pair("max_context_token_estimate", &max),
        pair("prompt_token_estimate", &pt),
    ];
    let e = ContextEntry {
        message: None,
        item_type: GenerationContextItemType::ModelOptions,
        item_id: Some(String::from_str(model)),
        label: string_of(&label),
        tokens: 0,
        metadata,
    };
    assert(pt@ =~= int_text(prompt_token_estimate as int));
    assert(pairs_view(e.metadata@) =~= options_entry(model@, prompt_token_estimate as int).meta);
    e
}


// ---------------------------------------------------------------------------
// Assembly
// ---------------------------------------------------------------------------

proof fn lemma_prompt_tokens_concat(a: Seq<EntryView>, b: Seq<EntryView>)
    ensures
        prompt_tokens(a + b) == prompt_tokens(a) + prompt_tokens(b),
    decreases b.len(),
{
    if b.len() == 0 {
        assert(a + b =~= a);
    } else {
        assert((a + b).drop_last() =~= a + b.drop_last());
        lemma_prompt_tokens_concat(a, b.drop_last());
    }
}

proof fn lemma_prompt_tokens_prefix(es: Seq<EntryView>, i: int)
    requires
        0 <= i <= es.len(),
        forall|k: int| 0 <= k < es.len() ==> (#[trigger] es[k]).tokens >= 0,
    ensures
        0 <= prompt_tokens(es.take(i)) <= prompt_tokens(es),
    decreases es.len(),
{
    if i < es.len() {
        lemma_prompt_tokens_prefix(es.drop_last(), i);
        assert(es.drop_last().take(i) =~= es.take(i));
    } else {
        assert(es.take(i) =~= es);
        if es.len() > 0 {
            lemma_prompt_tokens_prefix(es.drop_last(), i - 1);
            assert(es.drop_last().take(i - 1) =~= es.drop_last());
        }
    }
}

proof fn lemma_first_meta_error_prefix(es: Seq<EntryView>, k: int)
    requires
        0 <= k <= es.len(),
        first_meta_error(es.take(k)) is Some,
    ensures
        first_meta_error(es) == first_meta_error(es.take(k)),
    decreases es.len(),
{
    if k < es.len() {
        assert(es.drop_last().take(k) =~= es.take(k));
        lemma_first_meta_error_prefix(es.drop_last(), k);
    } else {
        assert(es.take(k) =~= es);
    }
}

/// Index of the newest user message.
fn find_last_user(messages: &[ChatMessage]) -> (r: Option<usize>)
    ensures
        match r {
            Some(i) => i == last_user_index(messages@) && i < messages@.len(),
            None => last_user_index(messages@) < 0,
        },
{
    let mut k = messages.len();
    assert(messages@.take(messages@.len() as int) =~= messages@);
    while k > 0
        invariant
            k <= messages@.len(),
            last_user_index(messages@) == last_user_index(messages@.take(k as int)),
        decreases k,
    {
        let ghost t = messages@.take(k as int);
        assert(t.drop_last() =~= messages@.take(k as int - 1));
        if str_eq(messages[k - 1].role.as_str(), "user") {
            return Some(k - 1);
        }
        k = k - 1;
    }
    None
}

fn prompt_token_sum(entries: &Vec<ContextEntry>) -> (r: i64)
    requires
        prompt_tokens(entry_views(entries@)) <= i64::MAX,
        forall|k: int| 0 <= k < entries@.len() ==> (#[trigger] entry_views(entries@)[k]).tokens >= 0,
    ensures
        r == prompt_tokens(entry_views(entries@)),
{
    let ghost es = entry_views(entries@);
    let mut total: i64 = 0;
    let mut i: usize = 0;
    while i < entries.len()
        invariant
            i <= entries@.len(),
            es == entry_views(entries@),
            total == prompt_tokens(es.take(i as int)),
            prompt_tokens(es) <= i64::MAX,
            forall|k: int| 0 <= k < es.len() ==> (#[trigger] es[k]).tokens >= 0,
        decreases entries@.len() - i,
    {
        proof {
            assert(es.take(i as int + 1).drop_last() =~= es.take(i as int));
            lemma_prompt_tokens_prefix(es, i as int + 1);
            assert(es[i as int] == entries@[i as int]@);
        }
        if entries[i].message.is_some() {
            total = total + entries[i].tokens;
        }
        i = i + 1;
    }
    assert(es.take(entries@.len() as int) =~= es);
    total
}

fn clone_opt_string(o: &Option<String>) -> (r: Option<String>)
    ensures
        opt_view(r) == opt_view(*o),
{
    match o {
        Some(s) => Some(s.clone()),
        None => None,
    }
}

/// The entries before the earlier messages: system prompt, summary, memories.
fn head_entries_exec(summary: Option<&ConversationSummary>, memories: &[Memory]) -> (r: Vec<
    ContextEntry,
>)
    requires
        memories@.len() < u64::MAX,
    ensures
        entry_views(r@) == head_entries(opt_ref_view(summary), memories@),
{
    let mut entries: Vec<ContextEntry> = Vec::new();
    entries.push(system_entry_exec());
    if let Some(s) = summary {
        let e = summary_entry_exec(s);
        entries.push(e);
    }
    let ghost first = entry_views(entries@);
    assert(first =~= seq![system_entry()] + (match opt_ref_view(summary) {
        Some(s) => seq![summary_entry(s)],
        None => Seq::empty(),
    }));
    if memories.len() > 0 {
        entries.push(memory_block_entry_exec(memories));
        let ghost base = entry_views(entries@);
        assert(base =~= first + seq![memory_block_entry(memories@)]);
        let mut i: usize = 0;
        while i < memories.len()
            invariant
                i <= memories@.len(),
                entry_views(entries@) == base + memories@.take(i as int).map_values(
                    |m: Memory| memory_item_entry(m),
                ),
            decreases memories@.len() - i,
        {
            let e = memory_item_entry_exec(&memories[i]);
            let ghost before = entry_views(entries@);
            entries.push(e);
            assert(entry_views(entries@) =~= before.push(e@));
            assert(memories@.take(i as int + 1).map_values(|m: Memory| memory_item_entry(m))
                =~= memories@.take(i as int).map_values(|m: Memory| memory_item_entry(m)).push(
                memory_item_entry(memories@[i as int]),
            ));
            i = i + 1;
        }
        assert(memories@.take(memories@.len() as int) =~= memories@);
    }
    entries
}

/// The messages that `chosen` picks, read from its end: `chosen` holds
/// indices newest first.
pub open spec fn picked(messages: Seq<ChatMessage>, chosen: Seq<usize>) -> Seq<ChatMessage> {
    Seq::new(chosen.len(), |j: int| messages[chosen[chosen.len() - 1 - j] as int])
}

/// Chooses earlier messages (those before index `l`), newest first, while
/// their estimates fit the budget.
fn select_prior_exec(messages: &[ChatMessage], l: usize, budget0: i64) -> (r: (Vec<usize>, i64))
    requires
        l <= messages@.len() <= i64::MAX,
        budget0 >= 0,
    ensures
        picked(messages@, r.0@) == select_prior(messages@.take(l as int), budget0 as int).0,
        r.1 == select_prior(messages@.take(l as int), budget0 as int).1,
        r.1 >= 0,
        r.0@.len() <= l,
        forall|j: int| 0 <= j < r.0@.len() ==> #[trigger] r.0@[j] < l,
{
    let ghost prior = messages@.take(l as int);
    let mut budget = budget0;
    let mut omitted: i64 = 0;
    let mut chosen: Vec<usize> = Vec::new();
    let mut k = l;
    proof {
        assert(prior.take(l as int) =~= prior);
        assert(picked(messages@, chosen@) =~= Seq::<ChatMessage>::empty());
        let s = select_prior(prior, budget0 as int).0;
        assert(s + picked(messages@, chosen@) =~= s);
    }
    while k > 0
        invariant
            k <= l <= messages@.len() <= i64::MAX,
            prior == messages@.take(l as int),
            0 <= budget,
            0 <= omitted,
            chosen@.len() + omitted == l - k,
            forall|j: int| 0 <= j < chosen@.len() ==> k <= #[trigger] chosen@[j] < l,
            select_prior(prior, budget0 as int).0 == select_prior(prior.take(k as int), budget as int).0
                + picked(messages@, chosen@),
            select_prior(prior, budget0 as int).1 == select_prior(prior.take(k as int), budget as int).1
                + omitted,
        decreases k,
    {
        let ghost t = prior.take(k as int);
        assert(t.drop_last() =~= prior.take(k as int - 1));
        assert(t.last() == messages@[k - 1]);
        let content = chars_of(messages[k - 1].content.as_str());
        let tokens = estimate_tokens(&content);
        if tokens <= budget {
            let ghost before = picked(messages@, chosen@);
            let ghost s1 = select_prior(prior.take(k as int - 1), budget as int - tokens).0;
            chosen.push(k - 1);
            assert(picked(messages@, chosen@) =~= seq![messages@[k - 1]] + before);
            assert(s1.push(messages@[k - 1]) + before =~= s1 + picked(messages@, chosen@));
            budget = budget - tokens;
        } else {
            omitted = omitted + 1;
        }
        k = k - 1;
    }
    proof {
        assert(prior.take(0) =~= Seq::<ChatMessage>::empty());
        let s = picked(messages@, chosen@);
        assert(Seq::<ChatMessage>::empty() + s =~= s);
    }
    (chosen, omitted)
}

/// Appends a trace entry for each picked earlier message, oldest first.
fn push_prior_entries(entries: &mut Vec<ContextEntry>, messages: &[ChatMessage], chosen: &Vec<usize>)
    requires
        forall|j: int| 0 <= j < chosen@.len() ==> #[trigger] chosen@[j] < messages@.len(),
    ensures
        entry_views(final(entries)@) == entry_views(old(entries)@) + picked(
            messages@,
            chosen@,
        ).map_values(|m: ChatMessage| prior_entry(m)),
{
    let ghost p = picked(messages@, chosen@);
    let ghost base = entry_views(entries@);
    let mut j = chosen.len();
    assert(p.take(0).map_values(|m: ChatMessage| prior_entry(m)) =~= Seq::<EntryView>::empty());
    assert(base + Seq::<EntryView>::empty() =~= base);
    while j > 0
        invariant
            j <= chosen@.len() == p.len(),
            p == picked(messages@, chosen@),
            forall|x: int| 0 <= x < chosen@.len() ==> #[trigger] chosen@[x] < messages@.len(),
            entry_views(entries@) == base + p.take(p.len() - j).map_values(
                |m: ChatMessage| prior_entry(m),
            ),
        decreases j,
    {
        let idx = chosen[j - 1];
        let e = prior_entry_exec(&messages[idx]);
        let ghost before = entry_views(entries@);
        entries.push(e);
        let ghost x = p.len() - j;
        assert(p[x] == messages@[idx as int]);
        assert(entry_views(entries@) =~= before.push(e@));
        assert(p.take(x + 1).map_values(|m: ChatMessage| prior_entry(m)) =~= p.take(x).map_values(
            |m: ChatMessage| prior_entry(m),
        ).push(prior_entry(p[x])));
        j = j - 1;
    }
    assert(p.take(p.len() as int) =~= p);
}

/// Appends the document entries: the excerpts and one entry per source, or
/// the notice that nothing matched when knowledge is enabled.
fn push_doc_entries(
    entries: &mut Vec<ContextEntry>,
    sources: &[GenerationDocumentSourceUse],
    knowledge: bool,
)
    requires
        sources@.len() < u64::MAX,
    ensures
        entry_views(final(entries)@) == entry_views(old(entries)@) + doc_entries(sources@, knowledge),
{
    let ghost start = entry_views(entries@);
    if sources.len() > 0 {
        entries.push(doc_block_entry_exec(sources));
        let ghost base = entry_views(entries@);
        assert(base =~= start + seq![doc_block_entry(sources@)]);
        let mut i: usize = 0;
        while i < sources.len()
            invariant
                i <= sources@.len(),
                entry_views(entries@) == base + sources@.take(i as int).map_values(
                    |s: GenerationDocumentSourceUse| source_item_entry(s),
                ),
            decreases sources@.len() - i,
        {
            let e = source_item_entry_exec(&sources[i]);
            let ghost before = entry_views(entries@);
            entries.push(e);
            assert(entry_views(entries@) =~= before.push(e@));
            assert(sources@.take(i as int + 1).map_values(
                |s: GenerationDocumentSourceUse| source_item_entry(s),
            ) =~= sources@.take(i as int).map_values(
                |s: GenerationDocumentSourceUse| source_item_entry(s),
            ).push(source_item_entry(sources@[i as int])));
            i = i + 1;
        }
        assert(sources@.take(sources@.len() as int) =~= sources@);
    } else if knowledge {
        entries.push(knowledge_none_entry_exec());
        assert(entry_views(entries@) =~= start + doc_entries(sources@, knowledge));
    } else {
        assert(start + doc_entries(sources@, knowledge) =~= start);
    }
}

/// The budget left for earlier messages once the head, the document
/// reserve, the newest user message and the answer reserve are counted.
fn prior_budget_exec(
    head_tokens: i64,
    Ghost(head): Ghost<Seq<EntryView>>,
    sources: &[GenerationDocumentSourceUse],
    knowledge: bool,
    latest: &ChatMessage,
) -> (r: i64)
    requires
        head_tokens == prompt_tokens(head),
        head_tokens >= 0,
    ensures
        r == prior_budget(head, sources@, knowledge, *latest),
        r >= 0,
{
    let reserve: i64 = if sources.len() > 0 {
        let doc = document_prompt_context(sources);
        estimate_tokens(&doc)
    } else if knowledge {
        let none = chars_of(no_knowledge_sources_context());
        estimate_tokens(&none)
    } else {
        0
    };
    assert(reserve == doc_reserve(sources@, knowledge));
    let latest_text = chars_of(latest.content.as_str());
    let latest_tokens = estimate_tokens(&latest_text);
    let wide: i128 = MAX_CONTEXT_TOKEN_ESTIMATE as i128 - head_tokens as i128 - reserve as i128
        - latest_tokens as i128 - PRIOR_MESSAGE_RESERVE_TOKENS as i128;
    if wide > 0 {
        wide as i64
    } else {
        0
    }
}

/// Every entry of a body carries a token estimate of zero or more, and the
/// head's estimates are part of the body's.
proof fn lemma_body_tokens(
    messages: Seq<ChatMessage>,
    summary: Option<ConversationSummary>,
    ms: Seq<Memory>,
    ss: Seq<GenerationDocumentSourceUse>,
    knowledge: bool,
)
    requires
        0 <= last_user_index(messages) < messages.len(),
    ensures
        forall|k: int|
            0 <= k < body_entries(messages, summary, ms, ss, knowledge).len() ==> (#[trigger] body_entries(
                messages,
                summary,
                ms,
                ss,
                knowledge,
            )[k]).tokens >= 0,
        forall|k: int|
            0 <= k < head_entries(summary, ms).len() ==> (#[trigger] head_entries(summary, ms)[k]).tokens
                >= 0,
        0 <= prompt_tokens(head_entries(summary, ms)) <= prompt_tokens(
            body_entries(messages, summary, ms, ss, knowledge),
        ),
{
    let l = last_user_index(messages);
    let latest = messages[l];
    let head = head_entries(summary, ms);
    let (sel, om) = select_prior(messages.take(l), prior_budget(head, ss, knowledge, latest));
    let rest = sel.map_values(|m: ChatMessage| prior_entry(m)) + (if om > 0 {
        seq![truncation_entry(om)]
    } else {
        Seq::empty()
    }) + doc_entries(ss, knowledge) + seq![user_entry(latest)];
    let body = body_entries(messages, summary, ms, ss, knowledge);
    assert(body =~= head + rest);
    assert forall|k: int| 0 <= k < rest.len() implies (#[trigger] rest[k]).tokens >= 0 by {}
    assert forall|k: int| 0 <= k < head.len() implies (#[trigger] head[k]).tokens >= 0 by {}
    lemma_prompt_tokens_concat(head, rest);
    lemma_prompt_tokens_prefix(rest, 0);
    lemma_prompt_tokens_prefix(head, 0);
    assert(rest.take(0) =~= Seq::<EntryView>::empty());
    assert(head.take(0) =~= Seq::<EntryView>::empty());
}

/// Serialises each entry's metadata and numbers the items; the first
/// entry whose metadata cannot be serialised ends the assembly with its
/// error.
fn serialize_entries(entries: &Vec<ContextEntry>) -> (r: Result<AssembledContext, String>)
    requires
        entries@.len() <= i64::MAX,
    ensures
        r is Ok,
        assembled_result_view(r) == match first_meta_error(entry_views(entries@)) {
            Some(e) => Err(e),
            None => Ok(assembled_from(entry_views(entries@))),
        },
{
    let ghost es = entry_views(entries@);
    let mut out_messages: Vec<ContextPromptMessage> = Vec::new();
    let mut items: Vec<GenerationContextItemDraft> = Vec::new();
    let mut x: usize = 0;
    assert(es.take(0) =~= Seq::<EntryView>::empty());
    assert(items@.map_values(|i: GenerationContextItemDraft| i@) =~= Seq::new(
        0,
        |k: int| entry_item(es[k], k),
    ));
    while x < entries.len()
        invariant
            x <= entries@.len() == es.len(),
            es.len() <= i64::MAX,
            es == entry_views(entries@),
            first_meta_error(es.take(x as int)) is None,
            items@.map_values(|i: GenerationContextItemDraft| i@) == Seq::new(
                x as nat,
                |k: int| entry_item(es[k], k),
            ),
            out_messages@.map_values(|m: ContextPromptMessage| (m.role@, m.content@))
                == entry_messages(es.take(x as int)),
        decreases entries@.len() - x,
    {
        let ghost t = es.take(x as int + 1);
        assert(t.drop_last() =~= es.take(x as int));
        let e = &entries[x];
        assert(e@ == es[x as int]);
        match metadata_json(&e.metadata) {
            Err(err) => {
                proof {
                    assert(first_meta_error(t) == Some(err@));
                    lemma_first_meta_error_prefix(es, x as int + 1);
                }
                return Err(err);
            },
            Ok(json) => {
                let ghost before_items = items@.map_values(|i: GenerationContextItemDraft| i@);
                let mut order_index = x as i64;
                push_metadata_item(
                    &mut items,
                    &mut order_index,
                    e.item_type,
                    clone_opt_string(&e.item_id),
                    e.label.clone(),
                    e.tokens,
                    Some(json),
                );
                let ghost item = items@.last();
                assert(items@.map_values(|i: GenerationContextItemDraft| i@) =~= before_items.push(
                    item@,
                ));
                assert(item@ == entry_item(es[x as int], x as int));
                assert(items@.map_values(|i: GenerationContextItemDraft| i@) =~= Seq::new(
                    x as nat + 1,
                    |k: int| entry_item(es[k], k),
                ));
                let ghost before_msgs = out_messages@.map_values(
                    |m: ContextPromptMessage| (m.role@, m.content@),
                );
                match &e.message {
                    Some(m) => {
                        let pm = ContextPromptMessage {
                            role: m.role.clone(),
                            content: m.content.clone(),
                        };
                        out_messages.push(pm);
                        assert(out_messages@.map_values(
                            |m: ContextPromptMessage| (m.role@, m.content@),
                        ) =~= before_msgs.push((pm.role@, pm.content@)));
                    },
                    None => {},
                }
            },
        }
        x = x + 1;
    }
    assert(es.take(es.len() as int) =~= es);
    let result = AssembledContext { messages: out_messages, items };
    assert(result@.items =~= assembled_from(es).items);
    Ok(result)
}

/// `assemble`: builds the prompt for the newest user message of a chat.
///
/// The prompt holds, in order: the system prompt; the enabled summary; the
/// enabled memories; as many earlier messages as fit the token budget,
/// newest first but kept in chronological order; the retrieved document
/// excerpts (or a notice that none matched, when knowledge is enabled); and
/// the newest user message.  Each part is recorded as a trace item with
/// consecutive order indices, followed by a truncation notice when earlier
/// messages were left out and by the model options.  A chat without a user
/// message is refused.
pub fn assemble(input: AssemblyInput<'_>) -> (r: Result<AssembledContext, String>)
    requires
        input.messages@.len() + input.prompt_memories@.len() + input.document_sources@.len() + 8
            <= i64::MAX,
        last_user_index(input.messages@) >= 0 ==> prompt_tokens(
            body_entries(
                input.messages@,
                opt_ref_view(input.prompt_summary),
                input.prompt_memories@,
                input.document_sources@,
                input.knowledge_enabled,
            ),
        ) <= i64::MAX,
    ensures
        assembled_result_view(r) == assemble_spec(
            input.model_name@,
            input.messages@,
            opt_ref_view(input.prompt_summary),
            input.prompt_memories@,
            input.document_sources@,
            input.knowledge_enabled,
        ),
        r is Ok <==> last_user_index(input.messages@) >= 0,
{
    let messages = input.messages;
    let memories = input.prompt_memories;
    let sources = input.document_sources;
    let knowledge = input.knowledge_enabled;
    let ghost summary_v = opt_ref_view(input.prompt_summary);
    let l = match find_last_user(messages) {
        Some(l) => l,
        None => {
            return Err(String::from_str("Chat has no user message to send to Ollama"));
        },
    };
    let latest = &messages[l];
    let ghost head = head_entries(summary_v, memories@);
    let ghost body = body_entries(messages@, summary_v, memories@, sources@, knowledge);
    proof {
        lemma_body_tokens(messages@, summary_v, memories@, sources@, knowledge);
    }
    let mut entries = head_entries_exec(input.prompt_summary, memories);
    let head_tokens = prompt_token_sum(&entries);
    let budget = prior_budget_exec(head_tokens, Ghost(head), sources, knowledge, latest);
    let (chosen, omitted) = select_prior_exec(messages, l, budget);
    push_prior_entries(&mut entries, messages, &chosen);
    let ghost after_priors = entry_views(entries@);
    if omitted > 0 {
        entries.push(truncation_entry_exec(omitted));
    }
    let ghost after_trunc = entry_views(entries@);
    assert(after_trunc =~= after_priors + (if omitted > 0 {
        seq![truncation_entry(omitted as int)]
    } else {
        Seq::empty()
    }));
    push_doc_entries(&mut entries, sources, knowledge);
    let ghost after_docs = entry_views(entries@);
    entries.push(user_entry_exec(latest));
    assert(entry_views(entries@) =~= after_docs.push(user_entry(*latest)));
    assert(entry_views(entries@) =~= body);
    let prompt_tokens_total = prompt_token_sum(&entries);
    let ghost before_options = entry_views(entries@);
    entries.push(options_entry_exec(input.model_name, prompt_tokens_total));
    let ghost es = context_entries(input.model_name@, messages@, summary_v, memories@, sources@, knowledge);
    assert(entry_views(entries@) =~= es);
    assert(entries@.len() == entry_views(entries@).len());
    assert(entries@.len() <= messages@.len() + memories@.len() + sources@.len() + 8);
    serialize_entries(&entries)
}

/// Sum of the token estimates of messages.
pub open spec fn message_tokens(ms: Seq<ChatMessage>) -> int
    decreases ms.len(),
{
    if ms.len() == 0 {
        0
    } else {
        message_tokens(ms.drop_last()) + est_tokens(ms.last().content@)
    }
}

/// The earlier messages kept for a prompt fit the budget they were chosen
/// for, and every earlier message is either kept or counted as omitted.
pub proof fn lemma_select_prior_within_budget(prior: Seq<ChatMessage>, budget: int)
    requires
        budget >= 0,
    ensures
        message_tokens(select_prior(prior, budget).0) <= budget,
        select_prior(prior, budget).0.len() + select_prior(prior, budget).1 == prior.len(),
    decreases prior.len(),
{
    if prior.len() > 0 {
        let m = prior.last();
        let t = est_tokens(m.content@);
        if t <= budget {
            lemma_select_prior_within_budget(prior.drop_last(), budget - t);
            let s = select_prior(prior.drop_last(), budget - t).0;
            assert(s.push(m).drop_last() =~= s);
        } else {
            lemma_select_prior_within_budget(prior.drop_last(), budget);
        }
    }
}

pub open spec fn latest_user(messages: Seq<ChatMessage>) -> ChatMessage {
    messages[last_user_index(messages)]
}

proof fn lemma_last_user_index_bounds(ms: Seq<ChatMessage>)
    ensures
        -1 <= last_user_index(ms) < ms.len(),
        last_user_index(ms) >= 0 ==> ms[last_user_index(ms)].role@ == "user"@,
    decreases ms.len(),
{
    if ms.len() > 0 && ms.last().role@ != "user"@ {
        lemma_last_user_index_bounds(ms.drop_last());
    }
}

/// An assembled prompt ends with the newest user message of the chat, and
/// its trace numbers the items 0, 1, 2, ... in order, the last one being
/// the model options.
pub proof fn lemma_assembled_prompt_ends_with_latest_user(
    model: Seq<char>,
    messages: Seq<ChatMessage>,
    summary: Option<ConversationSummary>,
    ms: Seq<Memory>,
    ss: Seq<GenerationDocumentSourceUse>,
    knowledge: bool,
)
    requires
        assemble_spec(model, messages, summary, ms, ss, knowledge) is Ok,
    ensures
        ({
            let v = assemble_spec(model, messages, summary, ms, ss, knowledge)->Ok_0;
            &&& v.messages.len() > 0
            &&& v.messages.last() == (latest_user(messages).role@, latest_user(messages).content@)
            &&& latest_user(messages).role@ == "user"@
            &&& v.items.len() > 0
            &&& forall|k: int| 0 <= k < v.items.len() ==> (#[trigger] v.items[k]).order_index == k
            &&& v.items.last().item_type == GenerationContextItemType::ModelOptions
        }),
{
    lemma_last_user_index_bounds(messages);
    let es = context_entries(model, messages, summary, ms, ss, knowledge);
    let body = body_entries(messages, summary, ms, ss, knowledge);
    assert(es.drop_last() =~= body);
    assert(es.last().message is None);
    assert(entry_messages(es) == entry_messages(body));
    let u = latest_user(messages);
    assert(body.last() == user_entry(u));
    assert(entry_messages(body) == entry_messages(body.drop_last()).push((u.role@, u.content@)));
    let v = assembled_from(es);
    assert(first_meta_error(es) is None);
    assert(assemble_spec(model, messages, summary, ms, ss, knowledge) == Ok::<AssembledView, Seq<char>>(v));
    assert(v.items.last() == entry_item(es.last(), es.len() - 1));
}

/// Earlier messages are left out of a prompt only when the budget forces it:
/// a truncation notice is in the trace exactly when some were omitted, and
/// the kept ones fit the budget.
pub proof fn lemma_assembled_prompt_respects_budget(
    messages: Seq<ChatMessage>,
    summary: Option<ConversationSummary>,
    ms: Seq<Memory>,
    ss: Seq<GenerationDocumentSourceUse>,
    knowledge: bool,
)
    requires
        last_user_index(messages) >= 0,
    ensures
        ({
            let l = last_user_index(messages);
            let head = head_entries(summary, ms);
            let budget = prior_budget(head, ss, knowledge, messages[l]);
            let (kept, omitted) = select_prior(messages.take(l), budget);
            &&& message_tokens(kept) <= budget
            &&& kept.len() + omitted == l
            &&& budget <= MAX_CONTEXT_TOKEN_ESTIMATE
        }),
{
    lemma_last_user_index_bounds(messages);
    let l = last_user_index(messages);
    let head = head_entries(summary, ms);
    let budget = prior_budget(head, ss, knowledge, messages[l]);
    lemma_body_tokens(messages, summary, ms, ss, knowledge);
    lemma_select_prior_within_budget(messages.take(l), budget);
}

/// A preview holds at most 180 characters, with no whitespace at its ends
/// and only single spaces between words.
pub proof fn lemma_preview_shape(s: Seq<char>)
    ensures
        preview_text(s).len() <= PREVIEW_CHARS,
        crate::text::is_tidy(preview_text(s)),
{
    crate::text::lemma_truncate_inline_shape(s, PREVIEW_CHARS as nat);
}

/// `a` is `b` with some elements left out: an increasing choice of
/// positions of `b` gives `a`.
pub open spec fn is_subsequence(a: Seq<ChatMessage>, b: Seq<ChatMessage>) -> bool {
    exists|idx: Seq<int>|
        #![trigger idx.len()]
        idx.len() == a.len() && (forall|j: int|
            0 <= j < a.len() ==> 0 <= #[trigger] idx[j] < b.len() && a[j] == b[idx[j]]) && (forall|
            i: int,
            j: int,
        | 0 <= i < j < a.len() ==> #[trigger] idx[i] < #[trigger] idx[j])
}

/// The messages kept for a prompt are earlier messages, in their order.
pub proof fn lemma_select_prior_subsequence(prior: Seq<ChatMessage>, budget: int)
    ensures
        is_subsequence(select_prior(prior, budget).0, prior),
    decreases prior.len(),
{
    if prior.len() == 0 {
        let idx = Seq::<int>::empty();
        assert(idx.len() == select_prior(prior, budget).0.len());
    } else {
        let m = prior.last();
        let t = est_tokens(m.content@);
        let rest = prior.drop_last();
        let b2 = if t <= budget {
            budget - t
        } else {
            budget
        };
        lemma_select_prior_subsequence(rest, b2);
        let s = select_prior(rest, b2).0;
        let idx = choose|idx: Seq<int>|
            #![trigger idx.len()]
            idx.len() == s.len() && (forall|j: int|
                0 <= j < s.len() ==> 0 <= #[trigger] idx[j] < rest.len() && s[j] == rest[idx[j]])
                && (forall|i: int, j: int|
                0 <= i < j < s.len() ==> #[trigger] idx[i] < #[trigger] idx[j]);
        if t <= budget {
            let a = s.push(m);
            let idx2 = idx.push(prior.len() - 1);
            assert(a == select_prior(prior, budget).0);
            assert forall|j: int| 0 <= j < a.len() implies 0 <= #[trigger] idx2[j] < prior.len()
                && a[j] == prior[idx2[j]] by {
                if j < s.len() {
                    assert(idx2[j] == idx[j]);
                    assert(rest[idx[j]] == prior[idx[j]]);
                }
            }
            assert forall|i: int, j: int| 0 <= i < j < a.len() implies #[trigger] idx2[i]
                < #[trigger] idx2[j] by {
                if j < s.len() {
                    assert(idx2[i] == idx[i] && idx2[j] == idx[j]);
                } else {
                    assert(idx2[i] == idx[i]);
                }
            }
            assert(idx2.len() == a.len());
        } else {
            assert(s == select_prior(prior, budget).0);
            assert forall|j: int| 0 <= j < s.len() implies 0 <= #[trigger] idx[j] < prior.len()
                && s[j] == prior[idx[j]] by {
                assert(rest[idx[j]] == prior[idx[j]]);
            }
            assert(idx.len() == s.len());
        }
    }
}

/// The message of any entry is among the prompt messages.
proof fn lemma_entry_messages_hold(es: Seq<EntryView>, k: int)
    requires
        0 <= k < es.len(),
        es[k].message is Some,
    ensures
        entry_messages(es).contains(es[k].message->0),
    decreases es.len(),
{
    let rest = es.drop_last();
    let mr = entry_messages(rest);
    if k == es.len() - 1 {
        assert(entry_messages(es) == mr.push(es[k].message->0));
        assert(mr.push(es[k].message->0)[mr.len() as int] == es[k].message->0);
    } else {
        assert(rest[k] == es[k]);
        lemma_entry_messages_hold(rest, k);
        let j = choose|j: int| 0 <= j < mr.len() && mr[j] == es[k].message->0;
        match es.last().message {
            Some(m) => {
                assert(entry_messages(es) == mr.push(m));
                assert(mr.push(m)[j] == mr[j]);
            },
            None => {},
        }
    }
}

/// With document sources, the assembled prompt hands every source's text to
/// the model: some system message of the prompt holds it.
pub proof fn lemma_assembled_prompt_holds_sources(
    model: Seq<char>,
    messages: Seq<ChatMessage>,
    summary: Option<ConversationSummary>,
    ms: Seq<Memory>,
    ss: Seq<GenerationDocumentSourceUse>,
    knowledge: bool,
    k: int,
)
    requires
        assemble_spec(model, messages, summary, ms, ss, knowledge) is Ok,
        0 <= k < ss.len(),
    ensures
        ({
            let v = assemble_spec(model, messages, summary, ms, ss, knowledge)->Ok_0;
            exists|j: int|
                0 <= j < v.messages.len() && (#[trigger] v.messages[j]).0 == "system"@ && has_infix(
                    v.messages[j].1,
                    ss[k].content@,
                )
        }),
{
    let v = assemble_spec(model, messages, summary, ms, ss, knowledge)->Ok_0;
    let es = context_entries(model, messages, summary, ms, ss, knowledge);
    let l = last_user_index(messages);
    let latest = messages[l];
    let head = head_entries(summary, ms);
    let (selected, omitted) = select_prior(messages.take(l), prior_budget(head, ss, knowledge, latest));
    let priors = selected.map_values(|m: ChatMessage| prior_entry(m));
    let trunc = if omitted > 0 {
        seq![truncation_entry(omitted)]
    } else {
        Seq::<EntryView>::empty()
    };
    let docs = doc_entries(ss, knowledge);
    let body = head + priors + trunc + docs + seq![user_entry(latest)];
    assert(body_entries(messages, summary, ms, ss, knowledge) == body);
    let idx: int = (head.len() + priors.len() + trunc.len()) as int;
    assert(docs[0] == doc_block_entry(ss));
    assert(body[idx] == docs[0]);
    assert(es[idx] == body[idx]);
    lemma_entry_messages_hold(es, idx);
    let m = ("system"@, document_context_text(ss));
    assert(v.messages == entry_messages(es));
    let j = choose|j: int| 0 <= j < v.messages.len() && v.messages[j] == m;
    lemma_document_context_holds_sources(ss, k);
    assert(v.messages[j].0 == "system"@);
}

proof fn lemma_entry_messages_first(es: Seq<EntryView>)
    requires
        es.len() > 0,
        es[0].message is Some,
    ensures
        entry_messages(es).len() > 0,
        entry_messages(es)[0] == es[0].message->0,
    decreases es.len(),
{
    let rest = es.drop_last();
    if es.len() > 1 {
        assert(rest[0] == es[0]);
        lemma_entry_messages_first(rest);
        let mr = entry_messages(rest);
        match es.last().message {
            Some(m) => {
                assert(entry_messages(es) == mr.push(m));
                assert(mr.push(m)[0] == mr[0]);
            },
            None => {
                assert(entry_messages(es) == mr);
            },
        }
    } else {
        assert(rest =~= Seq::<EntryView>::empty());
        assert(es.last() == es[0]);
        assert(entry_messages(es) == entry_messages(rest).push(es[0].message->0));
    }
}

/// A chat without a user message is refused, with the same error whatever
/// else the chat holds.
pub proof fn lemma_assemble_refuses_chat_without_user(
    model: Seq<char>,
    messages: Seq<ChatMessage>,
    summary: Option<ConversationSummary>,
    ms: Seq<Memory>,
    ss: Seq<GenerationDocumentSourceUse>,
    knowledge: bool,
)
    requires
        forall|i: int| 0 <= i < messages.len() ==> (#[trigger] messages[i]).role@ != "user"@,
    ensures
        assemble_spec(model, messages, summary, ms, ss, knowledge) == Err::<AssembledView, Seq<char>>(
            "Chat has no user message to send to Ollama"@,
        ),
{
    lemma_last_user_index_bounds(messages);
}

/// The shape of an assembled prompt: it opens with the system prompt and
/// ends with the newest user message; its items are numbered 0, 1, 2, ...
/// and the last is the model options; the item just before them is the
/// newest user message (with its id) and no other item is one; the earlier messages kept are items right
/// after the head, in order, and they are earlier messages of the chat in
/// their order; no other item is an earlier message; and a truncation
/// notice is present exactly when some earlier message was left out.
#[verifier::rlimit(40)]
pub proof fn lemma_assembled_prompt_structure(
    model: Seq<char>,
    messages: Seq<ChatMessage>,
    summary: Option<ConversationSummary>,
    ms: Seq<Memory>,
    ss: Seq<GenerationDocumentSourceUse>,
    knowledge: bool,
)
    requires
        last_user_index(messages) >= 0,
        assemble_spec(model, messages, summary, ms, ss, knowledge) is Ok,
    ensures
        ({
            let v = assemble_spec(model, messages, summary, ms, ss, knowledge)->Ok_0;
            let l = last_user_index(messages);
            let u = latest_user(messages);
            let head = head_entries(summary, ms);
            let (kept, omitted) = select_prior(
                messages.take(l),
                prior_budget(head, ss, knowledge, messages[l]),
            );
            let n = v.items.len();
            &&& v.messages.len() > 0
            &&& v.messages[0] == ("system"@, system_prompt_text())
            &&& v.messages.last() == (u.role@, u.content@)
            &&& u.role@ == "user"@
            &&& forall|k: int| 0 <= k < n ==> (#[trigger] v.items[k]).order_index == k
            &&& v.items[n - 1].item_type == GenerationContextItemType::ModelOptions
            &&& n >= 3
            &&& v.items[0].item_type == GenerationContextItemType::SystemPrompt
            &&& v.items[n - 2].item_type == GenerationContextItemType::UserMessage
            &&& v.items[n - 2].item_id == Some(int_text(u.id as int))
            &&& forall|k: int|
                0 <= k < n && k != n - 2 ==> (#[trigger] v.items[k]).item_type
                    != GenerationContextItemType::UserMessage
            &&& is_subsequence(kept, messages.take(l))
            &&& forall|j: int|
                0 <= j < kept.len() ==> (#[trigger] v.items[head.len() + j]).item_type
                    == GenerationContextItemType::PriorMessage && v.items[head.len() + j].item_id
                    == Some(int_text(kept[j].id as int))
            &&& forall|k: int|
                0 <= k < n && (#[trigger] v.items[k]).item_type
                    == GenerationContextItemType::PriorMessage ==> head.len() <= k < head.len()
                    + kept.len()
            &&& (exists|k: int|
                0 <= k < n && (#[trigger] v.items[k]).item_type
                    == GenerationContextItemType::TruncationNotice) <==> kept.len() < l
        }),
{
    lemma_last_user_index_bounds(messages);
    lemma_assembled_prompt_ends_with_latest_user(model, messages, summary, ms, ss, knowledge);
    let l = last_user_index(messages);
    let u = messages[l];
    let head = head_entries(summary, ms);
    let budget = prior_budget(head, ss, knowledge, u);
    let (kept, omitted) = select_prior(messages.take(l), budget);
    lemma_select_prior_within_budget(messages.take(l), budget);
    lemma_select_prior_subsequence(messages.take(l), budget);
    let priors = kept.map_values(|m: ChatMessage| prior_entry(m));
    let trunc = if omitted > 0 {
        seq![truncation_entry(omitted)]
    } else {
        Seq::<EntryView>::empty()
    };
    let docs = doc_entries(ss, knowledge);
    let body = body_entries(messages, summary, ms, ss, knowledge);
    assert(body == head + priors + trunc + docs + seq![user_entry(u)]);
    let es = context_entries(model, messages, summary, ms, ss, knowledge);
    assert(es == body.push(options_entry(model, prompt_tokens(body))));
    let v = assembled_from(es);
    assert(first_meta_error(es) is None);
    assert(assemble_spec(model, messages, summary, ms, ss, knowledge) == Ok::<AssembledView, Seq<char>>(v));
    let h = head.len() as int;
    let p = priors.len() as int;
    let t = trunc.len() as int;
    let d = docs.len() as int;
    let n = es.len() as int;
    assert(n == h + p + t + d + 2);
    assert(h >= 1);
    // Where each part lies.
    assert forall|k: int| 0 <= k < h implies #[trigger] es[k] == head[k] by {}
    assert forall|j: int| 0 <= j < p implies #[trigger] es[h + j] == priors[j] by {}
    assert forall|j: int| 0 <= j < t implies #[trigger] es[h + p + j] == trunc[j] by {}
    assert forall|j: int| 0 <= j < d implies #[trigger] es[h + p + t + j] == docs[j] by {}
    assert(es[n - 2] == user_entry(u));
    assert(es[n - 1] == options_entry(model, prompt_tokens(body)));
    // The kinds each part holds.
    assert forall|k: int| 0 <= k < h implies {
        let ty = (#[trigger] head[k]).item_type;
        ty == GenerationContextItemType::SystemPrompt || ty == GenerationContextItemType::Summary
            || ty == GenerationContextItemType::Memory
    } by {
        let sm = match summary {
            Some(s) => seq![summary_entry(s)],
            None => Seq::<EntryView>::empty(),
        };
        let mm = if ms.len() > 0 {
            seq![memory_block_entry(ms)] + ms.map_values(|m: Memory| memory_item_entry(m))
        } else {
            Seq::<EntryView>::empty()
        };
        assert(head == seq![system_entry()] + sm + mm);
        if k == 0 {
        } else if k < 1 + sm.len() {
            assert(head[k] == sm[k - 1]);
        } else {
            assert(head[k] == mm[k - 1 - sm.len()]);
            if k - 1 - sm.len() > 0 {
                assert(mm[k - 1 - sm.len()] == memory_item_entry(ms[k - 2 - sm.len()]));
            }
        }
    }
    assert forall|j: int| 0 <= j < d implies (#[trigger] docs[j]).item_type
        == GenerationContextItemType::DocumentChunk by {
        if ss.len() > 0 {
            if j > 0 {
                assert(docs[j] == source_item_entry(ss[j - 1]));
            }
        }
    }
    assert forall|j: int| 0 <= j < p implies (#[trigger] priors[j]) == prior_entry(kept[j]) by {}
    assert forall|j: int| 0 <= j < t implies (#[trigger] trunc[j]).item_type
        == GenerationContextItemType::TruncationNotice by {}
    // The claims.
    lemma_entry_messages_first(es);
    assert(v.items[0].item_type == es[0].item_type);
    assert(es[0] == head[0]);
    assert(head[0] == system_entry());
    assert forall|k: int| 0 <= k < n && k != n - 2 implies (#[trigger] v.items[k]).item_type
        != GenerationContextItemType::UserMessage by {
        assert(v.items[k].item_type == es[k].item_type);
        if k < h {
            assert(es[k] == head[k]);
        } else if k < h + p {
            assert(es[k] == priors[k - h]);
        } else if k < h + p + t {
            assert(es[k] == trunc[k - h - p]);
        } else if k < h + p + t + d {
            assert(es[k] == docs[k - h - p - t]);
        }
    }
    assert forall|j: int| 0 <= j < kept.len() implies (#[trigger] v.items[h + j]).item_type
        == GenerationContextItemType::PriorMessage && v.items[h + j].item_id == Some(
        int_text(kept[j].id as int),
    ) by {
        assert(es[h + j] == priors[j]);
    }
    assert forall|k: int|
        0 <= k < n && (#[trigger] v.items[k]).item_type == GenerationContextItemType::PriorMessage
            implies h <= k < h + kept.len() by {
        assert(v.items[k].item_type == es[k].item_type);
        if k < h {
            assert(es[k] == head[k]);
        } else if k >= h + p {
            if k < h + p + t {
                assert(es[k] == trunc[k - h - p]);
            } else if k < h + p + t + d {
                assert(es[k] == docs[k - h - p - t]);
            }
        }
    }
    if kept.len() < l {
        assert(omitted > 0);
        assert(v.items[h + p].item_type == es[h + p].item_type);
        assert(es[h + p] == trunc[0]);
    }
    if exists|k: int|
        0 <= k < n && (#[trigger] v.items[k]).item_type == GenerationContextItemType::TruncationNotice {
        let k = choose|k: int|
            0 <= k < n && (#[trigger] v.items[k]).item_type
                == GenerationContextItemType::TruncationNotice;
        assert(v.items[k].item_type == es[k].item_type);
        if k < h {
            assert(es[k] == head[k]);
        } else if k < h + p {
            assert(es[k] == priors[k - h]);
        } else if k < h + p + t {
        } else if k < h + p + t + d {
            assert(es[k] == docs[k - h - p - t]);
        }
        assert(t > 0);
    }
}

} // verus!
