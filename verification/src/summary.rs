//! Conversation summaries: validation and the message range they cover.
use vstd::prelude::*;
use crate::domain::string_result_view;
use crate::text::{lemma_trim_idempotent, string_of, trim, trim_str};

verus! {

/// Longest summary text, in characters.
pub const MAX_MANUAL_SUMMARY_CHARS: usize = 20_000;

/// A stored conversation summary.
pub struct ConversationSummary {
    pub id: String,
    pub conversation_id: String,
    pub summary: String,
    pub source_message_start_id: Option<i64>,
    pub source_message_end_id: Option<i64>,
    pub model_name: String,
    pub version: i64,
    pub enabled_for_prompt: bool,
    pub created_at: i64,
    pub updated_at: i64,
}

/// A message offered to the summariser.
pub struct SummarySourceMessage {
    pub id: i64,
    pub role: String,
    pub content: String,
}

/// What `normalize_summary` answers.
pub open spec fn normalized_summary(summary: Seq<char>) -> Result<Seq<char>, Seq<char>> {
    let t = trim(summary);
    if t.len() == 0 {
        Err("Summary cannot be empty."@)
    } else if t.len() > MAX_MANUAL_SUMMARY_CHARS {
        Err("Summary must be 20000 characters or fewer."@)
    } else {
        Ok(t)
    }
}

/// `normalize_summary`: the trimmed text, refused when blank or longer than
/// `MAX_MANUAL_SUMMARY_CHARS` characters.
pub fn normalize_summary(summary: &str) -> (r: Result<String, String>)
    ensures
        string_result_view(r) == normalized_summary(summary@),
{
    let t = trim_str(summary);
    if t.len() == 0 {
        return Err(String::from_str("Summary cannot be empty."));
    }
    if t.len() > MAX_MANUAL_SUMMARY_CHARS {
        return Err(String::from_str("Summary must be 20000 characters or fewer."));
    }
    Ok(string_of(&t))
}

/// `source_message_range`: ids of the first and last source messages.
pub fn source_message_range(messages: &[SummarySourceMessage]) -> (r: (Option<i64>, Option<i64>))
    ensures
        messages@.len() == 0 ==> r == (None::<i64>, None::<i64>),
        messages@.len() > 0 ==> r == (Some(messages@[0].id), Some(messages@.last().id)),
{
    if messages.len() == 0 {
        (None, None)
    } else {
        (Some(messages[0].id), Some(messages[messages.len() - 1].id))
    }
}

/// Normalising a summary's text again changes nothing.
pub proof fn lemma_normalized_summary_idempotent(summary: Seq<char>)
    requires
        normalized_summary(summary) is Ok,
    ensures
        normalized_summary(normalized_summary(summary)->Ok_0) == normalized_summary(summary),
{
    lemma_trim_idempotent(summary);
}

pub open spec fn summary_range(messages: Seq<SummarySourceMessage>) -> (Option<i64>, Option<i64>) {
    if messages.len() == 0 {
        (None, None)
    } else {
        (Some(messages[0].id), Some(messages.last().id))
    }
}

/// A summary ready to be stored: its text and the ids of the first and last
/// messages it covers.
pub struct SummaryDraft {
    pub summary: String,
    pub source_message_start_id: Option<i64>,
    pub source_message_end_id: Option<i64>,
}

/// What is done to a summary before it is stored: the text is
/// normalised (or refused) and the covered range taken from the source
/// messages.
pub fn prepare_summary(summary: &str, source_messages: &[SummarySourceMessage]) -> (r: Result<
    SummaryDraft,
    String,
>)
    ensures
        match r {
            Ok(d) => normalized_summary(summary@) == Ok::<Seq<char>, Seq<char>>(d.summary@) && (
            d.source_message_start_id, d.source_message_end_id) == summary_range(source_messages@),
            Err(e) => normalized_summary(summary@) == Err::<Seq<char>, Seq<char>>(e@),
        },
{
    let text = normalize_summary(summary)?;
    let (start, end) = source_message_range(source_messages);
    Ok(SummaryDraft { summary: text, source_message_start_id: start, source_message_end_id: end })
}

} // verus!
