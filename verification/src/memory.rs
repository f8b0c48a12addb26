//! User memories: validation of their text and scope, and whether a
//! conversation's prompts draw on them.
use vstd::prelude::*;
use crate::domain::{result_view, string_result_view, MemoryScopeType};
use crate::text::{chars_of, lemma_trim_idempotent, string_of, trim, trim_str};

verus! {

/// Longest memory text, in characters.
pub const MAX_MEMORY_CHARS: usize = 4_000;

/// A memory the user asked Atlas to keep.
pub struct Memory {
    pub id: String,
    pub scope_type: MemoryScopeType,
    pub scope_id: Option<String>,
    pub content: String,
    pub source_conversation_id: Option<String>,
    pub source_message_id: Option<i64>,
    pub pinned: bool,
    pub archived_at: Option<i64>,
    pub created_at: i64,
    pub updated_at: i64,
}

/// What `normalize_memory_content` answers.
pub open spec fn normalized_memory(content: Seq<char>) -> Result<Seq<char>, Seq<char>> {
    let t = trim(content);
    if t.len() == 0 {
        Err("Memory cannot be empty."@)
    } else if t.len() > MAX_MEMORY_CHARS {
        Err("Memory must be 4000 characters or fewer."@)
    } else {
        Ok(t)
    }
}

/// `normalize_memory_content`: the trimmed text, refused when blank or longer
/// than `MAX_MEMORY_CHARS` characters.
pub fn normalize_memory_content(content: &str) -> (r: Result<String, String>)
    ensures
        string_result_view(r) == normalized_memory(content@),
{
    let t = trim_str(content);
    if t.len() == 0 {
        return Err(String::from_str("Memory cannot be empty."));
    }
    if t.len() > MAX_MEMORY_CHARS {
        return Err(String::from_str("Memory must be 4000 characters or fewer."));
    }
    Ok(string_of(&t))
}

/// Is an optional scope id present and not blank?
pub open spec fn has_scope_id(scope_id: Option<Seq<char>>) -> bool {
    match scope_id {
        Some(id) => trim(id).len() > 0,
        None => false,
    }
}

/// What `validate_scope` answers.
pub open spec fn scope_check(scope_type: MemoryScopeType, scope_id: Option<Seq<char>>) -> Result<(), Seq<char>> {
    match scope_type {
        MemoryScopeType::Global => if has_scope_id(scope_id) {
            Err("Global memories cannot have a scope ID."@)
        } else {
            Ok(())
        },
        _ => if has_scope_id(scope_id) {
            Ok(())
        } else {
            Err("Scoped memories require a scope ID."@)
        },
    }
}

pub open spec fn opt_str_view(o: Option<&str>) -> Option<Seq<char>> {
    match o {
        Some(s) => Some(s@),
        None => None,
    }
}

/// `validate_scope`: global memories carry no scope id, conversation and
/// project memories need a non-blank one.
pub fn validate_scope(scope_type: MemoryScopeType, scope_id: Option<&str>) -> (r: Result<(), String>)
    ensures
        result_view(r) == scope_check(scope_type, opt_str_view(scope_id)),
{
    let present = match scope_id {
        Some(id) => trim_str(id).len() > 0,
        None => false,
    };
    match scope_type {
        MemoryScopeType::Global => {
            if present {
                return Err(String::from_str("Global memories cannot have a scope ID."));
            }
        },
        MemoryScopeType::Conversation | MemoryScopeType::Project => {
            if !present {
                return Err(String::from_str("Scoped memories require a scope ID."));
            }
        },
    }
    Ok(())
}

/// Normalising a memory's text again changes nothing.
pub proof fn lemma_normalized_memory_idempotent(content: Seq<char>)
    requires
        normalized_memory(content) is Ok,
    ensures
        normalized_memory(normalized_memory(content)->Ok_0) == normalized_memory(content),
{
    lemma_trim_idempotent(content);
}

/// What is checked of a new memory before it is stored: its text is
/// normalised and its scope validated, in that order.
pub open spec fn new_memory_text(
    scope_type: MemoryScopeType,
    scope_id: Option<Seq<char>>,
    content: Seq<char>,
) -> Result<Seq<char>, Seq<char>> {
    match normalized_memory(content) {
        Err(e) => Err(e),
        Ok(t) => match scope_check(scope_type, scope_id) {
            Err(e) => Err(e),
            Ok(()) => Ok(t),
        },
    }
}

/// The checks of a new memory: the text to store, or the first error.
pub fn prepare_memory(scope_type: MemoryScopeType, scope_id: Option<&str>, content: &str) -> (r:
    Result<String, String>)
    ensures
        string_result_view(r) == new_memory_text(scope_type, opt_str_view(scope_id), content@),
{
    let text = normalize_memory_content(content)?;
    match validate_scope(scope_type, scope_id) {
        Ok(()) => Ok(text),
        Err(e) => Err(e),
    }
}

/// Whether a conversation's prompts draw on the user's memories.
pub struct MemoryPromptSetting {
    pub conversation_id: String,
    pub enabled_for_prompt: bool,
    pub created_at: i64,
    pub updated_at: i64,
}

/// The stored setting of a conversation, or, when none is stored, one that
/// leaves memories out of its prompts.
pub fn memory_prompt_setting(stored: Option<MemoryPromptSetting>, conversation_id: &str) -> (r:
    MemoryPromptSetting)
    ensures
        match stored {
            Some(s) => r == s,
            None => r.conversation_id@ == conversation_id@ && !r.enabled_for_prompt && r.created_at
                == 0 && r.updated_at == 0,
        },
{
    match stored {
        Some(s) => s,
        None => MemoryPromptSetting {
            conversation_id: string_of(&chars_of(conversation_id)),
            enabled_for_prompt: false,
            created_at: 0,
            updated_at: 0,
        },
    }
}

} // verus!
