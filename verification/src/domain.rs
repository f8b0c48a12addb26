//! The enumerations stored as text in the database, with their names and
//! the parsers that read them back.
use vstd::prelude::*;
use crate::text::{chars_of, extend_str, str_eq, string_of};

verus! {

/// Views a `Result` whose error is a `String` through the string's view.
pub open spec fn result_view<T>(r: Result<T, String>) -> Result<T, Seq<char>> {
    match r {
        Ok(t) => Ok(t),
        Err(e) => Err(e@),
    }
}

/// Views a `Result<String, String>` through the views of both strings.
pub open spec fn string_result_view(r: Result<String, String>) -> Result<Seq<char>, Seq<char>> {
    match r {
        Ok(t) => Ok(t@),
        Err(e) => Err(e@),
    }
}

/// `"{prefix}{value}"` as a `String`.
fn prefixed_message(prefix: &str, value: &str) -> (r: String)
    ensures
        r@ == prefix@ + value@,
{
    let mut v = chars_of(prefix);
    extend_str(&mut v, value);
    string_of(&v)
}

/// Status of one prompt of a model benchmark.
#[derive(Clone, Copy, Debug, PartialEq, Eq, Structural)]
pub enum ModelBenchmarkStatus {
    Queued,
    Running,
    Completed,
    Cancelled,
    Failed,
}

impl ModelBenchmarkStatus {
    /// The name stored in the database.
    pub open spec fn name(self) -> Seq<char> {
        match self {
            ModelBenchmarkStatus::Queued => "queued"@,
            ModelBenchmarkStatus::Running => "running"@,
            ModelBenchmarkStatus::Completed => "completed"@,
            ModelBenchmarkStatus::Cancelled => "cancelled"@,
            ModelBenchmarkStatus::Failed => "failed"@,
        }
    }


    /// What `from_str` answers for a stored name.
    pub open spec fn parse(value: Seq<char>) -> Result<ModelBenchmarkStatus, Seq<char>> {
        if value == "queued"@ {
            Ok(ModelBenchmarkStatus::Queued)
        } else         if value == "running"@ {
            Ok(ModelBenchmarkStatus::Running)
        } else         if value == "completed"@ {
            Ok(ModelBenchmarkStatus::Completed)
        } else         if value == "cancelled"@ {
            Ok(ModelBenchmarkStatus::Cancelled)
        } else         if value == "failed"@ {
            Ok(ModelBenchmarkStatus::Failed)
        } else {
            Err("Unknown model benchmark status: "@ + value)
        }
    }


    pub fn as_str(self) -> (r: &'static str)
        ensures
            r@ == self.name(),
    {
        match self {
            ModelBenchmarkStatus::Queued => "queued",
            ModelBenchmarkStatus::Running => "running",
            ModelBenchmarkStatus::Completed => "completed",
            ModelBenchmarkStatus::Cancelled => "cancelled",
            ModelBenchmarkStatus::Failed => "failed",
        }
    }


    pub fn from_str(value: &str) -> (r: Result<ModelBenchmarkStatus, String>)
        ensures
            result_view(r) == ModelBenchmarkStatus::parse(value@),
    {
        if str_eq(value, "queued") {
            return Ok(ModelBenchmarkStatus::Queued);
        }
        if str_eq(value, "running") {
            return Ok(ModelBenchmarkStatus::Running);
        }
        if str_eq(value, "completed") {
            return Ok(ModelBenchmarkStatus::Completed);
        }
        if str_eq(value, "cancelled") {
            return Ok(ModelBenchmarkStatus::Cancelled);
        }
        if str_eq(value, "failed") {
            return Ok(ModelBenchmarkStatus::Failed);
        }
        Err(prefixed_message("Unknown model benchmark status: ", value))
    }
}

/// Kind of an entry recorded in a generation's prompt context trace.
#[derive(Clone, Copy, Debug, PartialEq, Eq, Structural)]
pub enum GenerationContextItemType {
    SystemPrompt,
    Summary,
    Memory,
    PriorMessage,
    DocumentChunk,
    UserMessage,
    ModelOptions,
    TruncationNotice,
}

impl GenerationContextItemType {
    /// The name stored in the database.
    pub open spec fn name(self) -> Seq<char> {
        match self {
            GenerationContextItemType::SystemPrompt => "system_prompt"@,
            GenerationContextItemType::Summary => "summary"@,
            GenerationContextItemType::Memory => "memory"@,
            GenerationContextItemType::PriorMessage => "prior_message"@,
            GenerationContextItemType::DocumentChunk => "document_chunk"@,
            GenerationContextItemType::UserMessage => "user_message"@,
            GenerationContextItemType::ModelOptions => "model_options"@,
            GenerationContextItemType::TruncationNotice => "truncation_notice"@,
        }
    }


    /// What `from_str` answers for a stored name.
    pub open spec fn parse(value: Seq<char>) -> Result<GenerationContextItemType, Seq<char>> {
        if value == "system_prompt"@ {
            Ok(GenerationContextItemType::SystemPrompt)
        } else         if value == "summary"@ {
            Ok(GenerationContextItemType::Summary)
        } else         if value == "memory"@ {
            Ok(GenerationContextItemType::Memory)
        } else         if value == "prior_message"@ {
            Ok(GenerationContextItemType::PriorMessage)
        } else         if value == "document_chunk"@ {
            Ok(GenerationContextItemType::DocumentChunk)
        } else         if value == "user_message"@ {
            Ok(GenerationContextItemType::UserMessage)
        } else         if value == "model_options"@ {
            Ok(GenerationContextItemType::ModelOptions)
        } else         if value == "truncation_notice"@ {
            Ok(GenerationContextItemType::TruncationNotice)
        } else {
            Err("Unknown generation context item type: "@ + value)
        }
    }


    pub fn as_str(self) -> (r: &'static str)
        ensures
            r@ == self.name(),
    {
        match self {
            GenerationContextItemType::SystemPrompt => "system_prompt",
            GenerationContextItemType::Summary => "summary",
            GenerationContextItemType::Memory => "memory",
            GenerationContextItemType::PriorMessage => "prior_message",
            GenerationContextItemType::DocumentChunk => "document_chunk",
            GenerationContextItemType::UserMessage => "user_message",
            GenerationContextItemType::ModelOptions => "model_options",
            GenerationContextItemType::TruncationNotice => "truncation_notice",
        }
    }


    pub fn from_str(value: &str) -> (r: Result<GenerationContextItemType, String>)
        ensures
            result_view(r) == GenerationContextItemType::parse(value@),
    {
        if str_eq(value, "system_prompt") {
            return Ok(GenerationContextItemType::SystemPrompt);
        }
        if str_eq(value, "summary") {
            return Ok(GenerationContextItemType::Summary);
        }
        if str_eq(value, "memory") {
            return Ok(GenerationContextItemType::Memory);
        }
        if str_eq(value, "prior_message") {
            return Ok(GenerationContextItemType::PriorMessage);
        }
        if str_eq(value, "document_chunk") {
            return Ok(GenerationContextItemType::DocumentChunk);
        }
        if str_eq(value, "user_message") {
            return Ok(GenerationContextItemType::UserMessage);
        }
        if str_eq(value, "model_options") {
            return Ok(GenerationContextItemType::ModelOptions);
        }
        if str_eq(value, "truncation_notice") {
            return Ok(GenerationContextItemType::TruncationNotice);
        }
        Err(prefixed_message("Unknown generation context item type: ", value))
    }
}

/// Kind of a persisted background job.
#[derive(Clone, Copy, Debug, PartialEq, Eq, Structural)]
pub enum JobType {
    ChatGeneration,
    ModelPull,
    ModelDelete,
    ExportConversation,
    DocumentImport,
    EmbeddingIndex,
    ModelBenchmark,
    ConversationSummary,
}

impl JobType {
    /// The name stored in the database.
    pub open spec fn name(self) -> Seq<char> {
        match self {
            JobType::ChatGeneration => "chat_generation"@,
            JobType::ModelPull => "model_pull"@,
            JobType::ModelDelete => "model_delete"@,
            JobType::ExportConversation => "export_conversation"@,
            JobType::DocumentImport => "document_import"@,
            JobType::EmbeddingIndex => "embedding_index"@,
            JobType::ModelBenchmark => "model_benchmark"@,
            JobType::ConversationSummary => "conversation_summary"@,
        }
    }


    /// What `from_str` answers for a stored name.
    pub open spec fn parse(value: Seq<char>) -> Result<JobType, Seq<char>> {
        if value == "chat_generation"@ {
            Ok(JobType::ChatGeneration)
        } else         if value == "model_pull"@ {
            Ok(JobType::ModelPull)
        } else         if value == "model_delete"@ {
            Ok(JobType::ModelDelete)
        } else         if value == "export_conversation"@ {
            Ok(JobType::ExportConversation)
        } else         if value == "document_import"@ {
            Ok(JobType::DocumentImport)
        } else         if value == "embedding_index"@ {
            Ok(JobType::EmbeddingIndex)
        } else         if value == "model_benchmark"@ {
            Ok(JobType::ModelBenchmark)
        } else         if value == "conversation_summary"@ {
            Ok(JobType::ConversationSummary)
        } else {
            Err("Unknown job type: "@ + value)
        }
    }


    pub fn as_str(self) -> (r: &'static str)
        ensures
            r@ == self.name(),
    {
        match self {
            JobType::ChatGeneration => "chat_generation",
            JobType::ModelPull => "model_pull",
            JobType::ModelDelete => "model_delete",
            JobType::ExportConversation => "export_conversation",
            JobType::DocumentImport => "document_import",
            JobType::EmbeddingIndex => "embedding_index",
            JobType::ModelBenchmark => "model_benchmark",
            JobType::ConversationSummary => "conversation_summary",
        }
    }


    pub fn from_str(value: &str) -> (r: Result<JobType, String>)
        ensures
            result_view(r) == JobType::parse(value@),
    {
        if str_eq(value, "chat_generation") {
            return Ok(JobType::ChatGeneration);
        }
        if str_eq(value, "model_pull") {
            return Ok(JobType::ModelPull);
        }
        if str_eq(value, "model_delete") {
            return Ok(JobType::ModelDelete);
        }
        if str_eq(value, "export_conversation") {
            return Ok(JobType::ExportConversation);
        }
        if str_eq(value, "document_import") {
            return Ok(JobType::DocumentImport);
        }
        if str_eq(value, "embedding_index") {
            return Ok(JobType::EmbeddingIndex);
        }
        if str_eq(value, "model_benchmark") {
            return Ok(JobType::ModelBenchmark);
        }
        if str_eq(value, "conversation_summary") {
            return Ok(JobType::ConversationSummary);
        }
        Err(prefixed_message("Unknown job type: ", value))
    }
}

/// Lifecycle state of a persisted job.
#[derive(Clone, Copy, Debug, PartialEq, Eq, Structural)]
pub enum JobStatus {
    Queued,
    Running,
    Cancelling,
    Cancelled,
    Succeeded,
    Failed,
}

impl JobStatus {
    /// The name stored in the database.
    pub open spec fn name(self) -> Seq<char> {
        match self {
            JobStatus::Queued => "queued"@,
            JobStatus::Running => "running"@,
            JobStatus::Cancelling => "cancelling"@,
            JobStatus::Cancelled => "cancelled"@,
            JobStatus::Succeeded => "succeeded"@,
            JobStatus::Failed => "failed"@,
        }
    }


    /// What `from_str` answers for a stored name.
    pub open spec fn parse(value: Seq<char>) -> Result<JobStatus, Seq<char>> {
        if value == "queued"@ {
            Ok(JobStatus::Queued)
        } else         if value == "running"@ {
            Ok(JobStatus::Running)
        } else         if value == "cancelling"@ {
            Ok(JobStatus::Cancelling)
        } else         if value == "cancelled"@ {
            Ok(JobStatus::Cancelled)
        } else         if value == "succeeded"@ {
            Ok(JobStatus::Succeeded)
        } else         if value == "failed"@ {
            Ok(JobStatus::Failed)
        } else {
            Err("Unknown job status: "@ + value)
        }
    }


    pub fn as_str(self) -> (r: &'static str)
        ensures
            r@ == self.name(),
    {
        match self {
            JobStatus::Queued => "queued",
            JobStatus::Running => "running",
            JobStatus::Cancelling => "cancelling",
            JobStatus::Cancelled => "cancelled",
            JobStatus::Succeeded => "succeeded",
            JobStatus::Failed => "failed",
        }
    }


    pub fn from_str(value: &str) -> (r: Result<JobStatus, String>)
        ensures
            result_view(r) == JobStatus::parse(value@),
    {
        if str_eq(value, "queued") {
            return Ok(JobStatus::Queued);
        }
        if str_eq(value, "running") {
            return Ok(JobStatus::Running);
        }
        if str_eq(value, "cancelling") {
            return Ok(JobStatus::Cancelling);
        }
        if str_eq(value, "cancelled") {
            return Ok(JobStatus::Cancelled);
        }
        if str_eq(value, "succeeded") {
            return Ok(JobStatus::Succeeded);
        }
        if str_eq(value, "failed") {
            return Ok(JobStatus::Failed);
        }
        Err(prefixed_message("Unknown job status: ", value))
    }
}

/// Where a user memory applies.
#[derive(Clone, Copy, Debug, PartialEq, Eq, Structural)]
pub enum MemoryScopeType {
    Global,
    Conversation,
    Project,
}

impl MemoryScopeType {
    /// The name stored in the database.
    pub open spec fn name(self) -> Seq<char> {
        match self {
            MemoryScopeType::Global => "global"@,
            MemoryScopeType::Conversation => "conversation"@,
            MemoryScopeType::Project => "project"@,
        }
    }


    /// What `from_str` answers for a stored name.
    pub open spec fn parse(value: Seq<char>) -> Result<MemoryScopeType, Seq<char>> {
        if value == "global"@ {
            Ok(MemoryScopeType::Global)
        } else         if value == "conversation"@ {
            Ok(MemoryScopeType::Conversation)
        } else         if value == "project"@ {
            Ok(MemoryScopeType::Project)
        } else {
            Err("Unknown memory scope: "@ + value)
        }
    }


    pub fn as_str(self) -> (r: &'static str)
        ensures
            r@ == self.name(),
    {
        match self {
            MemoryScopeType::Global => "global",
            MemoryScopeType::Conversation => "conversation",
            MemoryScopeType::Project => "project",
        }
    }


    pub fn from_str(value: &str) -> (r: Result<MemoryScopeType, String>)
        ensures
            result_view(r) == MemoryScopeType::parse(value@),
    {
        if str_eq(value, "global") {
            return Ok(MemoryScopeType::Global);
        }
        if str_eq(value, "conversation") {
            return Ok(MemoryScopeType::Conversation);
        }
        if str_eq(value, "project") {
            return Ok(MemoryScopeType::Project);
        }
        Err(prefixed_message("Unknown memory scope: ", value))
    }
}

/// State of a tool call requested by a model.
#[derive(Clone, Copy, Debug, PartialEq, Eq, Structural)]
pub enum ToolCallStatus {
    Pending,
    Denied,
    Succeeded,
    Failed,
}

impl ToolCallStatus {
    /// The name stored in the database.
    pub open spec fn name(self) -> Seq<char> {
        match self {
            ToolCallStatus::Pending => "pending"@,
            ToolCallStatus::Denied => "denied"@,
            ToolCallStatus::Succeeded => "succeeded"@,
            ToolCallStatus::Failed => "failed"@,
        }
    }


    /// What `from_str` answers for a stored name.
    pub open spec fn parse(value: Seq<char>) -> Result<ToolCallStatus, Seq<char>> {
        if value == "pending"@ {
            Ok(ToolCallStatus::Pending)
        } else         if value == "denied"@ {
            Ok(ToolCallStatus::Denied)
        } else         if value == "succeeded"@ {
            Ok(ToolCallStatus::Succeeded)
        } else         if value == "failed"@ {
            Ok(ToolCallStatus::Failed)
        } else {
            Err("Unknown tool call status: "@ + value)
        }
    }


    pub fn as_str(self) -> (r: &'static str)
        ensures
            r@ == self.name(),
    {
        match self {
            ToolCallStatus::Pending => "pending",
            ToolCallStatus::Denied => "denied",
            ToolCallStatus::Succeeded => "succeeded",
            ToolCallStatus::Failed => "failed",
        }
    }


    pub fn from_str(value: &str) -> (r: Result<ToolCallStatus, String>)
        ensures
            result_view(r) == ToolCallStatus::parse(value@),
    {
        if str_eq(value, "pending") {
            return Ok(ToolCallStatus::Pending);
        }
        if str_eq(value, "denied") {
            return Ok(ToolCallStatus::Denied);
        }
        if str_eq(value, "succeeded") {
            return Ok(ToolCallStatus::Succeeded);
        }
        if str_eq(value, "failed") {
            return Ok(ToolCallStatus::Failed);
        }
        Err(prefixed_message("Unknown tool call status: ", value))
    }
}

/// Scope of a stored tool permission.
#[derive(Clone, Copy, Debug, PartialEq, Eq, Structural)]
pub enum ToolPermissionScopeType {
    Workspace,
}

impl ToolPermissionScopeType {
    /// The name stored in the database.
    pub open spec fn name(self) -> Seq<char> {
        match self {
            ToolPermissionScopeType::Workspace => "workspace"@,
        }
    }


    /// What `from_str` answers for a stored name.
    pub open spec fn parse(value: Seq<char>) -> Result<ToolPermissionScopeType, Seq<char>> {
        if value == "workspace"@ {
            Ok(ToolPermissionScopeType::Workspace)
        } else {
            Err("Unknown tool permission scope: "@ + value)
        }
    }


    pub fn as_str(self) -> (r: &'static str)
        ensures
            r@ == self.name(),
    {
        match self {
            ToolPermissionScopeType::Workspace => "workspace",
        }
    }


    pub fn from_str(value: &str) -> (r: Result<ToolPermissionScopeType, String>)
        ensures
            result_view(r) == ToolPermissionScopeType::parse(value@),
    {
        if str_eq(value, "workspace") {
            return Ok(ToolPermissionScopeType::Workspace);
        }
        Err(prefixed_message("Unknown tool permission scope: ", value))
    }
}

/// Every `ModelBenchmarkStatus` reads back from its stored name, and no two values share
/// a name.
pub proof fn lemma_model_benchmark_status_round_trip(x: ModelBenchmarkStatus, y: ModelBenchmarkStatus)
    ensures
        ModelBenchmarkStatus::parse(x.name()) == Ok::<ModelBenchmarkStatus, Seq<char>>(x),
        x.name() == y.name() ==> x == y,
{
    reveal_strlit("queued");
    reveal_strlit("running");
    reveal_strlit("completed");
    reveal_strlit("cancelled");
    reveal_strlit("failed");
    assert("queued"@.len() != "running"@.len());
    assert("completed"@.len() != "queued"@.len());
    assert("completed"@.len() != "running"@.len());
    assert("completed"@.len() != "failed"@.len());
    assert("cancelled"@.len() != "queued"@.len());
    assert("cancelled"@.len() != "running"@.len());
    assert("cancelled"@[1] != "completed"@[1]);
    assert("cancelled"@.len() != "failed"@.len());
    assert("failed"@[0] != "queued"@[0]);
    assert("failed"@.len() != "running"@.len());
}

/// Every `GenerationContextItemType` reads back from its stored name, and no two values share
/// a name.
pub proof fn lemma_generation_context_item_type_round_trip(x: GenerationContextItemType, y: GenerationContextItemType)
    ensures
        GenerationContextItemType::parse(x.name()) == Ok::<GenerationContextItemType, Seq<char>>(x),
        x.name() == y.name() ==> x == y,
{
    reveal_strlit("system_prompt");
    reveal_strlit("summary");
    reveal_strlit("memory");
    reveal_strlit("prior_message");
    reveal_strlit("document_chunk");
    reveal_strlit("user_message");
    reveal_strlit("model_options");
    reveal_strlit("truncation_notice");
    assert("system_prompt"@.len() != "user_message"@.len());
    assert("system_prompt"@.len() != "truncation_notice"@.len());
    assert("summary"@.len() != "system_prompt"@.len());
    assert("summary"@.len() != "user_message"@.len());
    assert("summary"@.len() != "truncation_notice"@.len());
    assert("memory"@.len() != "system_prompt"@.len());
    assert("memory"@.len() != "summary"@.len());
    assert("memory"@.len() != "prior_message"@.len());
    assert("memory"@.len() != "user_message"@.len());
    assert("memory"@.len() != "model_options"@.len());
    assert("memory"@.len() != "truncation_notice"@.len());
    assert("prior_message"@[0] != "system_prompt"@[0]);
    assert("prior_message"@.len() != "summary"@.len());
    assert("prior_message"@.len() != "user_message"@.len());
    assert("prior_message"@.len() != "truncation_notice"@.len());
    assert("document_chunk"@.len() != "system_prompt"@.len());
    assert("document_chunk"@.len() != "summary"@.len());
    assert("document_chunk"@.len() != "memory"@.len());
    assert("document_chunk"@.len() != "prior_message"@.len());
    assert("document_chunk"@.len() != "user_message"@.len());
    assert("document_chunk"@.len() != "model_options"@.len());
    assert("document_chunk"@.len() != "truncation_notice"@.len());
    assert("model_options"@[0] != "system_prompt"@[0]);
    assert("model_options"@.len() != "summary"@.len());
    assert("model_options"@[0] != "prior_message"@[0]);
    assert("model_options"@.len() != "user_message"@.len());
    assert("model_options"@.len() != "truncation_notice"@.len());
    assert("truncation_notice"@.len() != "user_message"@.len());
}

/// Every `JobType` reads back from its stored name, and no two values share
/// a name.
pub proof fn lemma_job_type_round_trip(x: JobType, y: JobType)
    ensures
        JobType::parse(x.name()) == Ok::<JobType, Seq<char>>(x),
        x.name() == y.name() ==> x == y,
{
    reveal_strlit("chat_generation");
    reveal_strlit("model_pull");
    reveal_strlit("model_delete");
    reveal_strlit("export_conversation");
    reveal_strlit("document_import");
    reveal_strlit("embedding_index");
    reveal_strlit("model_benchmark");
    reveal_strlit("conversation_summary");
    assert("chat_generation"@.len() != "model_pull"@.len());
    assert("chat_generation"@.len() != "model_delete"@.len());
    assert("chat_generation"@.len() != "export_conversation"@.len());
    assert("chat_generation"@[0] != "document_import"@[0]);
    assert("chat_generation"@[0] != "embedding_index"@[0]);
    assert("chat_generation"@[0] != "model_benchmark"@[0]);
    assert("chat_generation"@.len() != "conversation_summary"@.len());
    assert("model_delete"@.len() != "model_pull"@.len());
    assert("export_conversation"@.len() != "model_pull"@.len());
    assert("export_conversation"@.len() != "model_delete"@.len());
    assert("export_conversation"@.len() != "model_benchmark"@.len());
    assert("document_import"@.len() != "model_pull"@.len());
    assert("document_import"@.len() != "model_delete"@.len());
    assert("document_import"@.len() != "export_conversation"@.len());
    assert("document_import"@[0] != "embedding_index"@[0]);
    assert("document_import"@[0] != "model_benchmark"@[0]);
    assert("embedding_index"@.len() != "model_pull"@.len());
    assert("embedding_index"@.len() != "model_delete"@.len());
    assert("embedding_index"@.len() != "export_conversation"@.len());
    assert("embedding_index"@[0] != "model_benchmark"@[0]);
    assert("model_benchmark"@.len() != "model_pull"@.len());
    assert("model_benchmark"@.len() != "model_delete"@.len());
    assert("conversation_summary"@.len() != "model_pull"@.len());
    assert("conversation_summary"@.len() != "model_delete"@.len());
    assert("conversation_summary"@.len() != "export_conversation"@.len());
    assert("conversation_summary"@.len() != "document_import"@.len());
    assert("conversation_summary"@.len() != "embedding_index"@.len());
    assert("conversation_summary"@.len() != "model_benchmark"@.len());
}

/// Every `JobStatus` reads back from its stored name, and no two values share
/// a name.
pub proof fn lemma_job_status_round_trip(x: JobStatus, y: JobStatus)
    ensures
        JobStatus::parse(x.name()) == Ok::<JobStatus, Seq<char>>(x),
        x.name() == y.name() ==> x == y,
{
    reveal_strlit("queued");
    reveal_strlit("running");
    reveal_strlit("cancelling");
    reveal_strlit("cancelled");
    reveal_strlit("succeeded");
    reveal_strlit("failed");
    assert("queued"@.len() != "running"@.len());
    assert("queued"@.len() != "succeeded"@.len());
    assert("running"@.len() != "succeeded"@.len());
    assert("cancelling"@.len() != "queued"@.len());
    assert("cancelling"@.len() != "running"@.len());
    assert("cancelling"@.len() != "succeeded"@.len());
    assert("cancelling"@.len() != "failed"@.len());
    assert("cancelled"@.len() != "queued"@.len());
    assert("cancelled"@.len() != "running"@.len());
    assert("cancelled"@.len() != "cancelling"@.len());
    assert("cancelled"@[0] != "succeeded"@[0]);
    assert("cancelled"@.len() != "failed"@.len());
    assert("failed"@[0] != "queued"@[0]);
    assert("failed"@.len() != "running"@.len());
    assert("failed"@.len() != "succeeded"@.len());
}

/// Every `MemoryScopeType` reads back from its stored name, and no two values share
/// a name.
pub proof fn lemma_memory_scope_type_round_trip(x: MemoryScopeType, y: MemoryScopeType)
    ensures
        MemoryScopeType::parse(x.name()) == Ok::<MemoryScopeType, Seq<char>>(x),
        x.name() == y.name() ==> x == y,
{
    reveal_strlit("global");
    reveal_strlit("conversation");
    reveal_strlit("project");
    assert("global"@.len() != "project"@.len());
    assert("conversation"@.len() != "global"@.len());
    assert("conversation"@.len() != "project"@.len());
}

/// Every `ToolCallStatus` reads back from its stored name, and no two values share
/// a name.
pub proof fn lemma_tool_call_status_round_trip(x: ToolCallStatus, y: ToolCallStatus)
    ensures
        ToolCallStatus::parse(x.name()) == Ok::<ToolCallStatus, Seq<char>>(x),
        x.name() == y.name() ==> x == y,
{
    reveal_strlit("pending");
    reveal_strlit("denied");
    reveal_strlit("succeeded");
    reveal_strlit("failed");
    assert("pending"@.len() != "succeeded"@.len());
    assert("denied"@.len() != "pending"@.len());
    assert("denied"@.len() != "succeeded"@.len());
    assert("denied"@[0] != "failed"@[0]);
    assert("failed"@.len() != "pending"@.len());
    assert("failed"@.len() != "succeeded"@.len());
}

/// Every `ToolPermissionScopeType` reads back from its stored name, and no two values share
/// a name.
pub proof fn lemma_tool_permission_scope_type_round_trip(x: ToolPermissionScopeType, y: ToolPermissionScopeType)
    ensures
        ToolPermissionScopeType::parse(x.name()) == Ok::<ToolPermissionScopeType, Seq<char>>(x),
        x.name() == y.name() ==> x == y,
{
    reveal_strlit("workspace");
}

} // verus!
