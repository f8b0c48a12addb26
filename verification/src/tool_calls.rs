//! Running a tool call that a model requested: what the user's decision
//! leads to, which tool runs with which argument, the workspace a permission
//! is granted in, and the summaries that the tools record.
use vstd::prelude::*;
use crate::domain::{string_result_view, ToolCallStatus};
use crate::model::{validate_ollama_model_name, validated_model_name};
use crate::digits::{dec_digits, int_text, push_dec, push_int};
use crate::text::{chars_of, extend_chars, extend_str, join_chars, join_with, str_eq, string_of, views};
use crate::tools::{
    arguments_view, json_object_entries, opt_view, parse_json_object, required_string,
    string_argument, truncate_summary, Arguments, ArgumentsView, MAX_SUMMARY_CHARS,
};

verus! {

// ---------------------------------------------------------------------------
// The user's decision
// ---------------------------------------------------------------------------

/// What the user decided about a pending tool call.
#[derive(Clone, Copy, Debug, PartialEq, Eq, Structural)]
pub enum ToolPermissionDecision {
    AllowOnce,
    AlwaysAllowWorkspace,
    Deny,
}

/// What is done with a tool call once the user has decided.
#[derive(Clone, Copy, Debug, PartialEq, Eq, Structural)]
pub enum ToolResolution {
    /// The call is no longer pending: it is handed back as it is.
    Unchanged,
    /// The call is marked denied.
    Deny,
    /// The tool runs once.
    Execute,
    /// The tool is allowed in the call's workspace from now on, then runs.
    AllowWorkspaceThenExecute,
}

pub open spec fn resolution_of(status: ToolCallStatus, decision: ToolPermissionDecision) -> ToolResolution {
    if status != ToolCallStatus::Pending {
        ToolResolution::Unchanged
    } else {
        match decision {
            ToolPermissionDecision::Deny => ToolResolution::Deny,
            ToolPermissionDecision::AllowOnce => ToolResolution::Execute,
            ToolPermissionDecision::AlwaysAllowWorkspace => ToolResolution::AllowWorkspaceThenExecute,
        }
    }
}

/// Only a pending call is acted on; then the decision picks the action.
pub fn tool_resolution(status: ToolCallStatus, decision: ToolPermissionDecision) -> (r: ToolResolution)
    ensures
        r == resolution_of(status, decision),
{
    if status != ToolCallStatus::Pending {
        return ToolResolution::Unchanged;
    }
    match decision {
        ToolPermissionDecision::Deny => ToolResolution::Deny,
        ToolPermissionDecision::AllowOnce => ToolResolution::Execute,
        ToolPermissionDecision::AlwaysAllowWorkspace => ToolResolution::AllowWorkspaceThenExecute,
    }
}


// ---------------------------------------------------------------------------
// The stored arguments
// ---------------------------------------------------------------------------

/// The message of the error that `serde_json::from_str::<serde_json::Value>`
/// reports for a text; `None` when the text is a JSON value.
pub uninterp spec fn json_value_error(text: Seq<char>) -> Option<Seq<char>>;

/// `serde_json::from_str::<serde_json::Value>`, keeping only its error,
/// rendered with `to_string`.  The contract names that message.
#[verifier::external_body]
fn json_syntax_error(text: &str) -> (r: Option<String>)
    ensures
        opt_view(r) == json_value_error(text@),
{
    serde_json::from_str::<serde_json::Value>(text).err().map(|error| error.to_string())
}

/// The arguments that a stored JSON text holds: the members of an object;
/// any other value is kept as its text, under which no key is found.
pub open spec fn stored_arguments(text: Seq<char>) -> ArgumentsView {
    match json_object_entries(text) {
        Some(es) => ArgumentsView::Object(es),
        None => ArgumentsView::Other(text),
    }
}

/// Reads stored arguments: the JSON error when the text is no JSON value.
fn read_stored_arguments(text: &str) -> (r: Result<Arguments, String>)
    ensures
        match r {
            Ok(a) => json_value_error(text@) is None && arguments_view(a) == stored_arguments(text@),
            Err(e) => json_value_error(text@) == Some(e@),
        },
{
    match json_syntax_error(text) {
        Some(e) => Err(e),
        None => match parse_json_object(text) {
            Some(es) => Ok(Arguments::Object(es)),
            None => Ok(Arguments::Other(string_of(&chars_of(text)))),
        },
    }
}

// ---------------------------------------------------------------------------
// Which tool runs
// ---------------------------------------------------------------------------

/// A tool to run, with the argument it reads.
pub enum ToolRun {
    SearchIndex { query: String },
    ReadFileChunk { chunk_id: String },
    GetModelStats { model_name: String },
}

pub enum ToolRunView {
    SearchIndex(Seq<char>),
    ReadFileChunk(Seq<char>),
    GetModelStats(Seq<char>),
}

pub open spec fn run_view(r: ToolRun) -> ToolRunView {
    match r {
        ToolRun::SearchIndex { query } => ToolRunView::SearchIndex(query@),
        ToolRun::ReadFileChunk { chunk_id } => ToolRunView::ReadFileChunk(chunk_id@),
        ToolRun::GetModelStats { model_name } => ToolRunView::GetModelStats(model_name@),
    }
}

pub open spec fn run_result_view(r: Result<ToolRun, String>) -> Result<ToolRunView, Seq<char>> {
    match r {
        Ok(t) => Ok(run_view(t)),
        Err(e) => Err(e@),
    }
}

/// The answer for a tool that cannot be run.
pub open spec fn unavailable_tool_message(tool_name: Seq<char>) -> Seq<char> {
    tool_name + " is not enabled in this MVP. Available tools: search_index, read_file_chunk, get_model_stats."@
}

/// The tool that a stored call runs: the arguments are read first (a text
/// that is no JSON value fails with the JSON error), then the tool's name
/// picks the argument it needs, which must be a non-blank string; a model
/// name must also be a valid one.
pub open spec fn planned_run(tool_name: Seq<char>, arguments_json: Seq<char>) -> Result<
    ToolRunView,
    Seq<char>,
> {
    match json_value_error(arguments_json) {
        Some(e) => Err(e),
        None => {
            let args = stored_arguments(arguments_json);
            if tool_name == "search_index"@ {
                match required_string(args, "query"@) {
                    Ok(q) => Ok(ToolRunView::SearchIndex(q)),
                    Err(e) => Err(e),
                }
            } else if tool_name == "read_file_chunk"@ {
                match required_string(args, "chunk_id"@) {
                    Ok(c) => Ok(ToolRunView::ReadFileChunk(c)),
                    Err(e) => Err(e),
                }
            } else if tool_name == "get_model_stats"@ {
                match required_string(args, "model_name"@) {
                    Ok(m) => match validated_model_name(m) {
                        Ok(v) => Ok(ToolRunView::GetModelStats(v)),
                        Err(e) => Err(e),
                    },
                    Err(e) => Err(e),
                }
            } else {
                Err(unavailable_tool_message(tool_name))
            }
        },
    }
}

/// The tool a stored call runs, or why it cannot run.
pub fn plan_tool_run(tool_name: &str, arguments_json: &str) -> (r: Result<ToolRun, String>)
    ensures
        run_result_view(r) == planned_run(tool_name@, arguments_json@),
{
    let args = match read_stored_arguments(arguments_json) {
        Ok(a) => a,
        Err(e) => {
            return Err(e);
        },
    };
    if str_eq(tool_name, "search_index") {
        match string_argument(&args, "query") {
            Ok(query) => Ok(ToolRun::SearchIndex { query }),
            Err(e) => Err(e),
        }
    } else if str_eq(tool_name, "read_file_chunk") {
        match string_argument(&args, "chunk_id") {
            Ok(chunk_id) => Ok(ToolRun::ReadFileChunk { chunk_id }),
            Err(e) => Err(e),
        }
    } else if str_eq(tool_name, "get_model_stats") {
        match string_argument(&args, "model_name") {
            Ok(m) => match validate_ollama_model_name(m.as_str()) {
                Ok(model_name) => Ok(ToolRun::GetModelStats { model_name }),
                Err(e) => Err(e),
            },
            Err(e) => Err(e),
        }
    } else {
        let mut m = chars_of(tool_name);
        extend_str(
            &mut m,
            " is not enabled in this MVP. Available tools: search_index, read_file_chunk, get_model_stats.",
        );
        Err(string_of(&m))
    }
}


// ---------------------------------------------------------------------------
// The workspace of a permission
// ---------------------------------------------------------------------------

/// Where the workspace of a call is found.
pub enum WorkspaceScope {
    /// The workspace of the document that holds this chunk.
    ChunkOwner { chunk_id: String },
    /// The workspace the call names, if it names one.
    Given { workspace_id: Option<String> },
    /// The tool has no workspace.
    NoScope,
}

pub enum WorkspaceScopeView {
    ChunkOwner(Seq<char>),
    Given(Option<Seq<char>>),
    NoScope,
}

pub open spec fn scope_view(s: WorkspaceScope) -> WorkspaceScopeView {
    match s {
        WorkspaceScope::ChunkOwner { chunk_id } => WorkspaceScopeView::ChunkOwner(chunk_id@),
        WorkspaceScope::Given { workspace_id } => WorkspaceScopeView::Given(opt_view(workspace_id)),
        WorkspaceScope::NoScope => WorkspaceScopeView::NoScope,
    }
}

pub open spec fn scope_result_view(r: Result<WorkspaceScope, String>) -> Result<WorkspaceScopeView, Seq<char>> {
    match r {
        Ok(s) => Ok(scope_view(s)),
        Err(e) => Err(e@),
    }
}

/// The workspace of a stored call: a chunk read is scoped by the chunk's
/// document, which needs the chunk id; a search by the `workspace_id` it
/// names, trimmed, when that is a non-blank string; other tools have none.
pub open spec fn workspace_scope_of(tool_name: Seq<char>, arguments_json: Seq<char>) -> Result<
    WorkspaceScopeView,
    Seq<char>,
> {
    match json_value_error(arguments_json) {
        Some(e) => Err(e),
        None => {
            let args = stored_arguments(arguments_json);
            if tool_name == "read_file_chunk"@ {
                match required_string(args, "chunk_id"@) {
                    Ok(c) => Ok(WorkspaceScopeView::ChunkOwner(c)),
                    Err(e) => Err(e),
                }
            } else if tool_name == "search_index"@ {
                Ok(
                    WorkspaceScopeView::Given(
                        match required_string(args, "workspace_id"@) {
                            Ok(w) => Some(w),
                            Err(_) => None,
                        },
                    ),
                )
            } else {
                Ok(WorkspaceScopeView::NoScope)
            }
        },
    }
}

/// Where the workspace of a stored call is found.
pub fn workspace_scope(tool_name: &str, arguments_json: &str) -> (r: Result<WorkspaceScope, String>)
    ensures
        scope_result_view(r) == workspace_scope_of(tool_name@, arguments_json@),
{
    let args = match read_stored_arguments(arguments_json) {
        Ok(a) => a,
        Err(e) => {
            return Err(e);
        },
    };
    if str_eq(tool_name, "read_file_chunk") {
        match string_argument(&args, "chunk_id") {
            Ok(chunk_id) => Ok(WorkspaceScope::ChunkOwner { chunk_id }),
            Err(e) => Err(e),
        }
    } else if str_eq(tool_name, "search_index") {
        let workspace_id = match string_argument(&args, "workspace_id") {
            Ok(w) => Some(w),
            Err(_) => None,
        };
        Ok(WorkspaceScope::Given { workspace_id })
    } else {
        Ok(WorkspaceScope::NoScope)
    }
}

/// A permission for every call in a workspace needs that workspace.
pub fn require_workspace_scope(workspace_id: Option<String>) -> (r: Result<String, String>)
    ensures
        string_result_view(r) == match workspace_id {
            Some(w) => Ok(w@),
            None => Err("This tool call has no indexed workspace scope."@),
        },
{
    match workspace_id {
        Some(w) => Ok(w),
        None => Err(String::from_str("This tool call has no indexed workspace scope.")),
    }
}

// ---------------------------------------------------------------------------
// What a run records
// ---------------------------------------------------------------------------

/// How a run of a tool is recorded.
pub enum ToolOutcome {
    /// The call succeeded; its result summary, shortened.
    Succeeded { result_summary: String },
    /// The call failed with this error.
    Failed { error: String },
}

/// A result is kept on one line and shortened to the summary limit; an error
/// is kept as it is.
pub fn tool_outcome(result: Result<String, String>) -> (r: ToolOutcome)
    ensures
        match result {
            Ok(s) => r matches ToolOutcome::Succeeded { result_summary } && result_summary@ == crate::tools::inline(
                s@,
                MAX_SUMMARY_CHARS as nat,
            ),
            Err(e) => r matches ToolOutcome::Failed { error } && error@ == e@,
        },
{
    match result {
        Ok(s) => ToolOutcome::Succeeded { result_summary: truncate_summary(s.as_str()) },
        Err(error) => ToolOutcome::Failed { error },
    }
}


// ---------------------------------------------------------------------------
// Result summaries
// ---------------------------------------------------------------------------

/// An indexed chunk that a search found.
pub struct IndexHit {
    pub file_name: String,
    pub chunk_id: String,
    pub start_line: i64,
    pub end_line: i64,
}

pub open spec fn hit_text(h: IndexHit) -> Seq<char> {
    h.file_name@ + " chunk "@ + h.chunk_id@ + " lines "@ + int_text(h.start_line as int) + "-"@
        + int_text(h.end_line as int)
}

pub open spec fn hit_texts(hits: Seq<IndexHit>) -> Seq<Seq<char>> {
    hits.map_values(|h: IndexHit| hit_text(h))
}

/// What a search of the index reports: that nothing matched, or how many
/// chunks matched and where each one is.
pub open spec fn search_index_text(query: Seq<char>, hits: Seq<IndexHit>) -> Seq<char> {
    if hits.len() == 0 {
        "No indexed chunks matched query \""@ + query + "\"."@
    } else {
        "Found "@ + dec_digits(hits.len()) + " indexed chunk "@ + (if hits.len() == 1 {
            "match"@
        } else {
            "matches"@
        }) + " for \""@ + query + "\": "@ + join_with(hit_texts(hits), "; "@)
    }
}

fn push_hit(out: &mut Vec<char>, h: &IndexHit)
    ensures
        final(out)@ == old(out)@ + hit_text(*h),
{
    extend_str(out, h.file_name.as_str());
    extend_str(out, " chunk ");
    extend_str(out, h.chunk_id.as_str());
    extend_str(out, " lines ");
    push_int(out, h.start_line);
    extend_str(out, "-");
    push_int(out, h.end_line);
    assert(out@ =~= old(out)@ + hit_text(*h));
}

/// The summary of a search of the index.
pub fn search_index_summary(query: &str, hits: &Vec<IndexHit>) -> (r: String)
    ensures
        r@ == search_index_text(query@, hits@),
{
    if hits.len() == 0 {
        let mut out = chars_of("No indexed chunks matched query \"");
        extend_str(&mut out, query);
        extend_str(&mut out, "\".");
        return string_of(&out);
    }
    let mut parts: Vec<Vec<char>> = Vec::new();
    let mut i: usize = 0;
    while i < hits.len()
        invariant
            i <= hits@.len(),
            views(parts@) == hit_texts(hits@).take(i as int),
        decreases hits@.len() - i,
    {
        let mut part: Vec<char> = Vec::new();
        push_hit(&mut part, &hits[i]);
        assert(part@ =~= hit_text(hits@[i as int]));
        let ghost before = parts@;
        parts.push(part);
        assert(parts@ == before.push(part));
        assert(views(parts@) =~= views(before).push(part@));
        assert(views(parts@) =~= hit_texts(hits@).take(i as int + 1));
        i = i + 1;
    }
    assert(hit_texts(hits@).take(hits@.len() as int) =~= hit_texts(hits@));
    let mut out = chars_of("Found ");
    push_dec(&mut out, hits.len() as u64);
    extend_str(&mut out, " indexed chunk ");
    if hits.len() == 1 {
        extend_str(&mut out, "match");
    } else {
        extend_str(&mut out, "matches");
    }
    extend_str(&mut out, " for \"");
    extend_str(&mut out, query);
    extend_str(&mut out, "\": ");
    let joined = join_chars(&parts, &chars_of("; "));
    extend_chars(&mut out, &joined);
    string_of(&out)
}

/// What reading a chunk reports: where the chunk lies and its length in
/// characters, never its content.
pub open spec fn read_chunk_text(
    chunk_id: Seq<char>,
    document_id: Seq<char>,
    start_line: int,
    end_line: int,
    content: Seq<char>,
) -> Seq<char> {
    "Read approved indexed chunk "@ + chunk_id + " from document "@ + document_id + " lines "@
        + int_text(start_line) + "-"@ + int_text(end_line) + ". Content length: "@ + dec_digits(
        content.len(),
    ) + " chars. Full content is not stored in the tool-call log."@
}

/// The summary of reading a chunk.
pub fn read_chunk_summary(
    chunk_id: &str,
    document_id: &str,
    start_line: i64,
    end_line: i64,
    content: &str,
) -> (r: String)
    ensures
        r@ == read_chunk_text(chunk_id@, document_id@, start_line as int, end_line as int, content@),
{
    let mut out = chars_of("Read approved indexed chunk ");
    extend_str(&mut out, chunk_id);
    extend_str(&mut out, " from document ");
    extend_str(&mut out, document_id);
    extend_str(&mut out, " lines ");
    push_int(&mut out, start_line);
    extend_str(&mut out, "-");
    push_int(&mut out, end_line);
    extend_str(&mut out, ". Content length: ");
    let n = chars_of(content).len();
    push_dec(&mut out, n as u64);
    extend_str(&mut out, " chars. Full content is not stored in the tool-call log.");
    let ghost expected = read_chunk_text(
        chunk_id@,
        document_id@,
        start_line as int,
        end_line as int,
        content@,
    );
    assert(out@ =~= expected);
    string_of(&out)
}

/// What the model statistics report.  The average speed comes already
/// written with one decimal; without one, "no speed recorded" is said.
pub open spec fn model_stats_text(
    model_name: Seq<char>,
    generation_count: int,
    benchmark_count: int,
    average_speed: Option<Seq<char>>,
    last_used_at: Option<int>,
) -> Seq<char> {
    model_name + " has "@ + int_text(generation_count) + " completed generations, "@ + int_text(
        benchmark_count,
    ) + " completed benchmarks, average speed "@ + match average_speed {
        Some(s) => s + " tokens/s"@,
        None => "no speed recorded"@,
    } + ", last used "@ + match last_used_at {
        Some(t) => int_text(t),
        None => "never"@,
    } + "."@
}

/// The summary of a model's statistics.
pub fn model_stats_summary(
    model_name: &str,
    generation_count: i64,
    benchmark_count: i64,
    average_speed: Option<&str>,
    last_used_at: Option<i64>,
) -> (r: String)
    ensures
        r@ == model_stats_text(
            model_name@,
            generation_count as int,
            benchmark_count as int,
            match average_speed {
                Some(s) => Some(s@),
                None => None,
            },
            match last_used_at {
                Some(t) => Some(t as int),
                None => None,
            },
        ),
{
    let mut out = chars_of(model_name);
    extend_str(&mut out, " has ");
    push_int(&mut out, generation_count);
    extend_str(&mut out, " completed generations, ");
    push_int(&mut out, benchmark_count);
    extend_str(&mut out, " completed benchmarks, average speed ");
    match average_speed {
        Some(s) => {
            extend_str(&mut out, s);
            extend_str(&mut out, " tokens/s");
        },
        None => extend_str(&mut out, "no speed recorded"),
    }
    extend_str(&mut out, ", last used ");
    match last_used_at {
        Some(t) => push_int(&mut out, t),
        None => extend_str(&mut out, "never"),
    }
    extend_str(&mut out, ".");
    let ghost expected = model_stats_text(
        model_name@,
        generation_count as int,
        benchmark_count as int,
        match average_speed {
            Some(s) => Some(s@),
            None => None,
        },
        match last_used_at {
            Some(t) => Some(t as int),
            None => None,
        },
    );
    assert(out@ =~= expected);
    string_of(&out)
}

// ---------------------------------------------------------------------------
// Laws
// ---------------------------------------------------------------------------

/// A tool runs only for a call that is still pending and that the user
/// allowed (once or for the workspace); a denial, or a call already
/// settled, never runs one.
pub proof fn lemma_tools_run_only_when_allowed(
    status: ToolCallStatus,
    decision: ToolPermissionDecision,
)
    ensures
        (resolution_of(status, decision) == ToolResolution::Execute || resolution_of(status, decision)
            == ToolResolution::AllowWorkspaceThenExecute) <==> (status == ToolCallStatus::Pending
            && decision != ToolPermissionDecision::Deny),
        resolution_of(status, decision) == ToolResolution::Deny <==> (status == ToolCallStatus::Pending
            && decision == ToolPermissionDecision::Deny),
{
}

/// Only the three read tools can run; any other name is refused.
pub proof fn lemma_only_read_tools_run(tool_name: Seq<char>, arguments_json: Seq<char>)
    ensures
        planned_run(tool_name, arguments_json) is Ok ==> (tool_name == "search_index"@ || tool_name
            == "read_file_chunk"@ || tool_name == "get_model_stats"@),
{
}

/// What a chunk read records never holds the chunk's content: two chunks
/// of the same length in the same place are reported alike.
pub proof fn lemma_chunk_read_summary_hides_content(
    chunk_id: Seq<char>,
    document_id: Seq<char>,
    start_line: int,
    end_line: int,
    content: Seq<char>,
    other: Seq<char>,
)
    requires
        content.len() == other.len(),
    ensures
        read_chunk_text(chunk_id, document_id, start_line, end_line, content) == read_chunk_text(
            chunk_id,
            document_id,
            start_line,
            end_line,
            other,
        ),
{
}

} // verus!
