//! Local knowledge: the terms of a query and the full-text query built from
//! them, what a document search asks of the index, whether a conversation
//! uses the index, and the record of a chunk handed to a generation.
use vstd::prelude::*;
use crate::text::{
    chars_eq_str, chars_of, contains_chars, extend_str, has_infix, join_chars, join_with,
    lemma_join_with_infix, lower_char, string_of, to_ascii_lower, views,
};
use crate::unicode::{is_word_char, word_char};

verus! {

/// A retrieved chunk as it was handed to a generation.
pub struct GenerationDocumentSourceUse {
    pub id: String,
    pub generation_run_id: String,
    pub retrieval_run_id: Option<String>,
    pub document_id: Option<String>,
    pub chunk_id: Option<String>,
    pub source_id: String,
    pub workspace_id: Option<String>,
    pub path: String,
    pub file_name: String,
    pub chunk_index: i64,
    pub start_byte: i64,
    pub end_byte: i64,
    pub start_line: i64,
    pub end_line: i64,
    pub content: String,
    pub used_at: i64,
}

/// Words that never become query terms.
pub open spec fn is_stop_word(w: Seq<char>) -> bool {
    ||| w == "a"@ ||| w == "an"@ ||| w == "and"@ ||| w == "are"@ ||| w == "as"@
    ||| w == "at"@ ||| w == "be"@ ||| w == "but"@ ||| w == "by"@ ||| w == "can"@
    ||| w == "do"@ ||| w == "does"@ ||| w == "for"@ ||| w == "from"@ ||| w == "how"@
    ||| w == "i"@ ||| w == "in"@ ||| w == "is"@ ||| w == "it"@ ||| w == "of"@
    ||| w == "on"@ ||| w == "or"@ ||| w == "that"@ ||| w == "the"@ ||| w == "this"@
    ||| w == "to"@ ||| w == "what"@ ||| w == "when"@ ||| w == "where"@ ||| w == "which"@
    ||| w == "who"@ ||| w == "why"@ ||| w == "with"@ ||| w == "you"@
}

pub fn stop_word(w: &Vec<char>) -> (r: bool)
    ensures
        r == is_stop_word(w@),
{
    chars_eq_str(w, "a") || chars_eq_str(w, "an") || chars_eq_str(w, "and") || chars_eq_str(
        w,
        "are",
    ) || chars_eq_str(w, "as") || chars_eq_str(w, "at") || chars_eq_str(w, "be")
        || chars_eq_str(w, "but") || chars_eq_str(w, "by") || chars_eq_str(w, "can")
        || chars_eq_str(w, "do") || chars_eq_str(w, "does") || chars_eq_str(w, "for")
        || chars_eq_str(w, "from") || chars_eq_str(w, "how") || chars_eq_str(w, "i")
        || chars_eq_str(w, "in") || chars_eq_str(w, "is") || chars_eq_str(w, "it")
        || chars_eq_str(w, "of") || chars_eq_str(w, "on") || chars_eq_str(w, "or")
        || chars_eq_str(w, "that") || chars_eq_str(w, "the") || chars_eq_str(w, "this")
        || chars_eq_str(w, "to") || chars_eq_str(w, "what") || chars_eq_str(w, "when")
        || chars_eq_str(w, "where") || chars_eq_str(w, "which") || chars_eq_str(w, "who")
        || chars_eq_str(w, "why") || chars_eq_str(w, "with") || chars_eq_str(w, "you")
}

/// A finished word becomes a term when it has at least
/// three characters, is not a stop word and is not already a term.
pub open spec fn accept_term(tokens: Seq<Seq<char>>, word: Seq<char>) -> Seq<Seq<char>> {
    if word.len() < 3 || is_stop_word(word) || tokens.contains(word) {
        tokens
    } else {
        tokens.push(word)
    }
}

/// Scan of the query: the terms found so far and the word being read.
pub open spec fn term_scan(q: Seq<char>) -> (Seq<Seq<char>>, Seq<char>)
    decreases q.len(),
{
    if q.len() == 0 {
        (Seq::empty(), Seq::empty())
    } else {
        let (tokens, current) = term_scan(q.drop_last());
        let c = q.last();
        if is_word_char(c) {
            (tokens, current.push(lower_char(c)))
        } else {
            (accept_term(tokens, current), Seq::empty())
        }
    }
}

/// The distinct significant lower-cased words of a query, in order of first
/// appearance.
pub open spec fn query_terms(q: Seq<char>) -> Seq<Seq<char>> {
    let (tokens, current) = term_scan(q);
    accept_term(tokens, current)
}

/// `token.replace('"', "\"\"")`.
pub open spec fn double_quotes(t: Seq<char>) -> Seq<char>
    decreases t.len(),
{
    if t.len() == 0 {
        Seq::empty()
    } else if t.last() == '"' {
        double_quotes(t.drop_last()) + seq!['"', '"']
    } else {
        double_quotes(t.drop_last()).push(t.last())
    }
}

pub open spec fn quoted_term(t: Seq<char>) -> Seq<char> {
    seq!['"'] + double_quotes(t) + seq!['"']
}

pub open spec fn min_nat(a: nat, b: nat) -> nat {
    if a <= b {
        a
    } else {
        b
    }
}

/// The query handed to the chunk index: at most twelve terms, each quoted,
/// joined by " OR ".
pub open spec fn knowledge_fts_query(q: Seq<char>) -> Seq<char> {
    let terms = query_terms(q);
    join_with(
        terms.take(min_nat(terms.len(), 12) as int).map_values(|t: Seq<char>| quoted_term(t)),
        " OR "@,
    )
}

/// Each of the first twelve terms of a query (all of them, when there are
/// no more than twelve) is searched for: the full-text query holds it in
/// double quotes.
pub proof fn lemma_fts_query_holds_leading_terms(q: Seq<char>, k: int)
    requires
        0 <= k < query_terms(q).len(),
        k < 12,
    ensures
        has_infix(knowledge_fts_query(q), quoted_term(query_terms(q)[k])),
{
    let terms = query_terms(q);
    let kept = terms.take(min_nat(terms.len(), 12) as int).map_values(|t: Seq<char>| quoted_term(t));
    assert(kept[k] == quoted_term(terms[k]));
    lemma_join_with_infix(kept, " OR "@, k);
}

proof fn lemma_accept_term(tokens: Seq<Seq<char>>, word: Seq<char>)
    requires
        tokens.no_duplicates(),
        forall|k: int| 0 <= k < tokens.len() ==> (#[trigger] tokens[k]).len() >= 3 && !is_stop_word(tokens[k]),
    ensures
        accept_term(tokens, word).no_duplicates(),
        forall|k: int|
            0 <= k < accept_term(tokens, word).len() ==> (#[trigger] accept_term(tokens, word)[k]).len() >= 3
                && !is_stop_word(accept_term(tokens, word)[k]),
{
}

/// Ends a word of the query: it becomes a term when it has at least three
/// characters, is not a stop word and is not a term already.
pub fn push_query_token(tokens: &mut Vec<Vec<char>>, current: Vec<char>)
    ensures
        views(final(tokens)@) == accept_term(views(old(tokens)@), current@),
{
    if current.len() < 3 {
        return ;
    }
    if !stop_word(&current) && !contains_chars(tokens, &current) {
        let ghost before = views(tokens@);
        tokens.push(current);
        assert(views(tokens@) =~= before.push(current@));
    }
}

fn quote_term(t: &Vec<char>) -> (r: Vec<char>)
    ensures
        r@ == quoted_term(t@),
{
    let mut out: Vec<char> = Vec::new();
    out.push('"');
    let mut i: usize = 0;
    while i < t.len()
        invariant
            i <= t.len(),
            out@ == seq!['"'] + double_quotes(t@.take(i as int)),
        decreases t.len() - i,
    {
        let ghost p = t@.take(i as int + 1);
        assert(p.drop_last() =~= t@.take(i as int));
        if t[i] == '"' {
            out.push('"');
            out.push('"');
        } else {
            out.push(t[i]);
        }
        assert(out@ =~= seq!['"'] + double_quotes(p));
        i = i + 1;
    }
    assert(t@.take(t.len() as int) =~= t@);
    out.push('"');
    assert(out@ =~= quoted_term(t@));
    out
}

/// The terms of a query (see `query_terms`).
pub fn extract_query_terms(query: &str) -> (r: Vec<Vec<char>>)
    ensures
        views(r@) == query_terms(query@),
        views(r@).no_duplicates(),
        forall|k: int|
            0 <= k < r.len() ==> (#[trigger] views(r@)[k]).len() >= 3 && !is_stop_word(
                views(r@)[k],
            ),
{
    let q = chars_of(query);
    let mut tokens: Vec<Vec<char>> = Vec::new();
    let mut current: Vec<char> = Vec::new();
    let mut i: usize = 0;
    while i < q.len()
        invariant
            i <= q.len(),
            q@ == query@,
            (views(tokens@), current@) == term_scan(q@.take(i as int)),
            views(tokens@).no_duplicates(),
            forall|k: int|
                0 <= k < tokens.len() ==> (#[trigger] views(tokens@)[k]).len() >= 3
                    && !is_stop_word(views(tokens@)[k]),
        decreases q.len() - i,
    {
        let ghost p = q@.take(i as int + 1);
        assert(p.drop_last() =~= q@.take(i as int));
        let c = q[i];
        if word_char(c) {
            current.push(to_ascii_lower(c));
        } else {
            proof {
                lemma_accept_term(views(tokens@), current@);
            }
            let word = current;
            current = Vec::new();
            push_query_token(&mut tokens, word);
            assert(current@ =~= Seq::<char>::empty());
        }
        i = i + 1;
    }
    assert(q@.take(q.len() as int) =~= q@);
    proof {
        lemma_accept_term(views(tokens@), current@);
    }
    push_query_token(&mut tokens, current);
    tokens
}

/// `build_fts_query` for document search: the quoted significant terms of
/// the query, at most twelve, joined by " OR "; empty when the query has no
/// significant term.
pub fn build_fts_query(query: &str) -> (r: String)
    ensures
        r@ == knowledge_fts_query(query@),
{
    let terms = extract_query_terms(query);
    let limit = if terms.len() < 12 {
        terms.len()
    } else {
        12
    };
    let mut quoted: Vec<Vec<char>> = Vec::new();
    let mut i: usize = 0;
    while i < limit
        invariant
            i <= limit <= terms.len(),
            views(quoted@) == views(terms@).take(i as int).map_values(|t: Seq<char>| quoted_term(t)),
        decreases limit - i,
    {
        let qt = quote_term(&terms[i]);
        let ghost before = views(quoted@);
        quoted.push(qt);
        assert(views(quoted@) =~= before.push(qt@));
        assert(views(terms@).take(i as int + 1).map_values(|t: Seq<char>| quoted_term(t))
            =~= views(terms@).take(i as int).map_values(|t: Seq<char>| quoted_term(t)).push(
            quoted_term(views(terms@)[i as int]),
        ));
        i = i + 1;
    }
    let sep = chars_of(" OR ");
    let joined = join_chars(&quoted, &sep);
    string_of(&joined)
}

/// Results asked of the index when the caller names no limit.
pub const DEFAULT_DOCUMENT_SEARCH_LIMIT: i64 = 20;

/// A search of the indexed documents: the full-text query and the number of
/// results asked for.
pub struct DocumentQuery {
    pub fts_query: String,
    pub limit: i64,
}

/// The search asked of the index for a query: none when the query has no
/// significant term (the answer is then no result), else its full-text
/// query and the limit given, or twenty.
pub fn document_search_query(query: &str, limit: Option<i64>) -> (r: Option<DocumentQuery>)
    ensures
        match r {
            None => knowledge_fts_query(query@).len() == 0,
            Some(q) => knowledge_fts_query(query@).len() > 0 && q.fts_query@ == knowledge_fts_query(
                query@,
            ) && q.limit == match limit {
                Some(l) => l,
                None => DEFAULT_DOCUMENT_SEARCH_LIMIT,
            },
        },
{
    let fts_query = build_fts_query(query);
    if fts_query.as_str().is_empty() {
        return None;
    }
    let limit = match limit {
        Some(l) => l,
        None => DEFAULT_DOCUMENT_SEARCH_LIMIT,
    };
    Some(DocumentQuery { fts_query, limit })
}

/// The error of a failed document search, with the query terms it used.
pub open spec fn document_search_error_text(fts_query: Seq<char>, error: Seq<char>) -> Seq<char> {
    "Could not search indexed documents. Query terms: "@ + fts_query + ". "@ + error
}

pub fn document_search_error(fts_query: &str, error: &str) -> (r: String)
    ensures
        r@ == document_search_error_text(fts_query@, error@),
{
    let mut out = chars_of("Could not search indexed documents. Query terms: ");
    extend_str(&mut out, fts_query);
    extend_str(&mut out, ". ");
    extend_str(&mut out, error);
    string_of(&out)
}

/// Whether a conversation's prompts draw on the index.
pub struct KnowledgePromptSetting {
    pub conversation_id: String,
    pub enabled_for_prompt: bool,
    pub created_at: i64,
    pub updated_at: i64,
}

/// The stored setting of a conversation, or, when none is stored, one that
/// leaves the index out of its prompts.
pub fn knowledge_prompt_setting(stored: Option<KnowledgePromptSetting>, conversation_id: &str) -> (r:
    KnowledgePromptSetting)
    ensures
        match stored {
            Some(s) => r == s,
            None => r.conversation_id@ == conversation_id@ && !r.enabled_for_prompt && r.created_at
                == 0 && r.updated_at == 0,
        },
{
    match stored {
        Some(s) => s,
        None => KnowledgePromptSetting {
            conversation_id: string_of(&chars_of(conversation_id)),
            enabled_for_prompt: false,
            created_at: 0,
            updated_at: 0,
        },
    }
}

} // verus!
