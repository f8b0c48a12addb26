//! Diagnostics: the shortened job records shown in the diagnostics center,
//! the summary text a user copies into a bug report, and the names of the
//! database's side files.
use vstd::prelude::*;
use crate::chat::opt_string_view;
use crate::digits::{dec_digits, int_text, push_dec, push_int};
use crate::domain::{JobStatus, JobType};
use crate::jobs::Job;
use crate::model::{ollama_status_label, status_label_text, OllamaStatusKind};
use crate::text::{
    chars_of, extend_str, join_chars, join_with, lemma_join_with_split, string_of, truncate_inline,
    truncate_inline_spec, views,
};

verus! {

/// Longest job label shown, in characters.
pub const MAX_LABEL_CHARS: usize = 160;

/// Longest error message shown, in characters.
pub const MAX_MESSAGE_CHARS: usize = 300;

/// A job as the diagnostics center shows it.
pub struct DiagnosticsJob {
    pub id: String,
    pub job_type: JobType,
    pub status: JobStatus,
    pub label: String,
    pub progress_current: Option<i64>,
    pub progress_total: Option<i64>,
    pub error_message: Option<String>,
    pub created_at: i64,
    pub started_at: Option<i64>,
    pub completed_at: Option<i64>,
}

/// A job as diagnostics show it: its label and error message on one line,
/// shortened to 160 and 300 characters.
pub fn diagnostics_job(job: Job) -> (r: DiagnosticsJob)
    ensures
        r.id == job.id,
        r.job_type == job.job_type,
        r.status == job.status,
        r.label@ == truncate_inline_spec(job.label@, MAX_LABEL_CHARS as nat),
        r.progress_current == job.progress_current,
        r.progress_total == job.progress_total,
        opt_string_view(r.error_message) == match job.error_message {
            Some(m) => Some(truncate_inline_spec(m@, MAX_MESSAGE_CHARS as nat)),
            None => None,
        },
        r.created_at == job.created_at,
        r.started_at == job.started_at,
        r.completed_at == job.completed_at,
{
    let label = truncate_inline(job.label.as_str(), MAX_LABEL_CHARS);
    let error_message = match &job.error_message {
        Some(m) => Some(truncate_inline(m.as_str(), MAX_MESSAGE_CHARS)),
        None => None,
    };
    DiagnosticsJob {
        id: job.id,
        job_type: job.job_type,
        status: job.status,
        label,
        progress_current: job.progress_current,
        progress_total: job.progress_total,
        error_message,
        created_at: job.created_at,
        started_at: job.started_at,
        completed_at: job.completed_at,
    }
}

/// A recent backend error as shown: label and message shortened.
pub struct DiagnosticsError {
    pub source: String,
    pub label: String,
    pub message: String,
    pub occurred_at: i64,
}

/// A recorded backend error as diagnostics show it: the label and message
/// on one line, shortened to 160 and 300 characters.
pub fn diagnostics_error(source: String, label: &str, message: &str, occurred_at: i64) -> (r:
    DiagnosticsError)
    ensures
        r.source == source,
        r.label@ == truncate_inline_spec(label@, MAX_LABEL_CHARS as nat),
        r.message@ == truncate_inline_spec(message@, MAX_MESSAGE_CHARS as nat),
        r.occurred_at == occurred_at,
{
    DiagnosticsError {
        source,
        label: truncate_inline(label, MAX_LABEL_CHARS),
        message: truncate_inline(message, MAX_MESSAGE_CHARS),
        occurred_at,
    }
}

/// What the copied summary reports of one model's speed; the speeds come
/// already written out.
pub struct ModelSpeedLine {
    pub model_name: String,
    pub generation_speed: String,
    pub benchmark_speed: String,
}

/// The facts the copied summary reports.
pub struct SummaryFacts {
    pub app_version: String,
    pub generated_at: i64,
    pub ollama_status: OllamaStatusKind,
    pub installed_models: u64,
    pub selected_model: Option<String>,
    pub database_size_bytes: i64,
    pub wal_size_bytes: i64,
    pub user_version: i64,
    pub integrity_check: String,
    pub running_jobs: u64,
    pub recent_failed_jobs: u64,
    pub queued: i64,
    pub queue_running: i64,
    pub queue_cancelling: i64,
    pub queue_failed: i64,
    pub indexed_document_count: i64,
    pub chunk_count: i64,
    pub workspace_count: i64,
    pub model_speeds: Vec<ModelSpeedLine>,
    pub recent_errors: u64,
}

pub open spec fn speed_line(s: ModelSpeedLine) -> Seq<char> {
    "- "@ + s.model_name@ + ": "@ + s.generation_speed@ + ", "@ + s.benchmark_speed@
}

pub open spec fn speed_lines(v: Seq<ModelSpeedLine>) -> Seq<Seq<char>> {
    if v.len() == 0 {
        seq!["Model speed: no completed generation or benchmark metrics"@]
    } else {
        seq!["Model speed:"@] + v.map_values(|s: ModelSpeedLine| speed_line(s))
    }
}

/// The lines of the copied summary.  The database path and the error
/// messages are left out.
pub open spec fn summary_lines(f: SummaryFacts) -> Seq<Seq<char>> {
    seq![
        "Atlas diagnostics ("@ + f.app_version@ + ")"@,
        "Generated at: "@ + int_text(f.generated_at as int),
        "Ollama: "@ + status_label_text(f.ollama_status),
        "Installed models: "@ + dec_digits(f.installed_models as nat),
        "Active model: "@ + match f.selected_model {
            Some(m) => m@,
            None => "none"@,
        },
        "Database path: redacted"@,
        "Database: "@ + int_text(f.database_size_bytes as int) + " bytes, WAL "@ + int_text(
            f.wal_size_bytes as int,
        ) + " bytes, schema v"@ + int_text(f.user_version as int) + ", integrity "@
            + f.integrity_check@,
        "Jobs: "@ + dec_digits(f.running_jobs as nat) + " running, "@ + dec_digits(
            f.recent_failed_jobs as nat,
        ) + " recent failed"@,
        "Embedding queue: queued "@ + int_text(f.queued as int) + ", running "@ + int_text(
            f.queue_running as int,
        ) + ", cancelling "@ + int_text(f.queue_cancelling as int) + ", failed "@ + int_text(
            f.queue_failed as int,
        ),
        "Indexed documents: "@ + int_text(f.indexed_document_count as int) + " active docs, "@
            + int_text(f.chunk_count as int) + " chunks, "@ + int_text(f.workspace_count as int)
            + " workspaces"@,
    ] + speed_lines(f.model_speeds@) + seq![
        "Recent backend errors: "@ + dec_digits(f.recent_errors as nat)
            + " present; messages omitted from copied summary"@,
    ]
}

/// What `copy_summary` answers: its lines joined by newlines.
pub open spec fn summary_text(f: SummaryFacts) -> Seq<char> {
    join_with(summary_lines(f), "\n"@)
}

fn line(parts: &str) -> (r: Vec<char>)
    ensures
        r@ == parts@,
{
    chars_of(parts)
}

fn header_lines(f: &SummaryFacts) -> (r: Vec<Vec<char>>)
    ensures
        views(r@) == summary_lines(*f).take(10),
{
    let mut lines: Vec<Vec<char>> = Vec::new();
    let mut l1 = chars_of("Atlas diagnostics (");
    extend_str(&mut l1, f.app_version.as_str());
    extend_str(&mut l1, ")");
    lines.push(l1);
    let mut l2 = chars_of("Generated at: ");
    push_int(&mut l2, f.generated_at);
    lines.push(l2);
    let mut l3 = chars_of("Ollama: ");
    extend_str(&mut l3, ollama_status_label(f.ollama_status));
    lines.push(l3);
    let mut l4 = chars_of("Installed models: ");
    push_dec(&mut l4, f.installed_models);
    lines.push(l4);
    let mut l5 = chars_of("Active model: ");
    match &f.selected_model {
        Some(m) => extend_str(&mut l5, m.as_str()),
        None => extend_str(&mut l5, "none"),
    }
    lines.push(l5);
    lines.push(line("Database path: redacted"));
    let mut l7 = chars_of("Database: ");
    push_int(&mut l7, f.database_size_bytes);
    extend_str(&mut l7, " bytes, WAL ");
    push_int(&mut l7, f.wal_size_bytes);
    extend_str(&mut l7, " bytes, schema v");
    push_int(&mut l7, f.user_version);
    extend_str(&mut l7, ", integrity ");
    extend_str(&mut l7, f.integrity_check.as_str());
    lines.push(l7);
    let mut l8 = chars_of("Jobs: ");
    push_dec(&mut l8, f.running_jobs);
    extend_str(&mut l8, " running, ");
    push_dec(&mut l8, f.recent_failed_jobs);
    extend_str(&mut l8, " recent failed");
    lines.push(l8);
    let mut l9 = chars_of("Embedding queue: queued ");
    push_int(&mut l9, f.queued);
    extend_str(&mut l9, ", running ");
    push_int(&mut l9, f.queue_running);
    extend_str(&mut l9, ", cancelling ");
    push_int(&mut l9, f.queue_cancelling);
    extend_str(&mut l9, ", failed ");
    push_int(&mut l9, f.queue_failed);
    lines.push(l9);
    let mut l10 = chars_of("Indexed documents: ");
    push_int(&mut l10, f.indexed_document_count);
    extend_str(&mut l10, " active docs, ");
    push_int(&mut l10, f.chunk_count);
    extend_str(&mut l10, " chunks, ");
    push_int(&mut l10, f.workspace_count);
    extend_str(&mut l10, " workspaces");
    lines.push(l10);
    assert(views(lines@) =~= summary_lines(*f).take(10));
    lines
}

/// `copy_summary`: the diagnostics a user can paste into a report.
pub fn copy_summary(f: &SummaryFacts) -> (r: String)
    ensures
        r@ == summary_text(*f),
{
    let mut lines = header_lines(f);
    let ghost head = views(lines@);
    if f.model_speeds.len() == 0 {
        lines.push(line("Model speed: no completed generation or benchmark metrics"));
        assert(views(lines@) =~= head + speed_lines(f.model_speeds@));
    } else {
        lines.push(line("Model speed:"));
        let mut i: usize = 0;
        while i < f.model_speeds.len()
            invariant
                i <= f.model_speeds@.len(),
                f.model_speeds@.len() > 0,
                views(lines@) == head + seq!["Model speed:"@] + f.model_speeds@.take(
                    i as int,
                ).map_values(|s: ModelSpeedLine| speed_line(s)),
            decreases f.model_speeds@.len() - i,
        {
            let s = &f.model_speeds[i];
            let mut l = chars_of("- ");
            extend_str(&mut l, s.model_name.as_str());
            extend_str(&mut l, ": ");
            extend_str(&mut l, s.generation_speed.as_str());
            extend_str(&mut l, ", ");
            extend_str(&mut l, s.benchmark_speed.as_str());
            let ghost before = views(lines@);
            lines.push(l);
            assert(views(lines@) =~= before.push(l@));
            assert(f.model_speeds@.take(i as int + 1).map_values(|s: ModelSpeedLine| speed_line(s))
                =~= f.model_speeds@.take(i as int).map_values(|s: ModelSpeedLine| speed_line(s)).push(
                speed_line(*s),
            ));
            i = i + 1;
        }
        assert(f.model_speeds@.take(f.model_speeds@.len() as int) =~= f.model_speeds@);
        assert(views(lines@) =~= head + speed_lines(f.model_speeds@));
    }
    let mut last = chars_of("Recent backend errors: ");
    push_dec(&mut last, f.recent_errors);
    extend_str(&mut last, " present; messages omitted from copied summary");
    let ghost before = views(lines@);
    lines.push(last);
    assert(views(lines@) =~= before.push(last@));
    assert(summary_lines(*f) =~= summary_lines(*f).take(10) + speed_lines(f.model_speeds@) + seq![
        last@,
    ]);
    assert(views(lines@) =~= summary_lines(*f));
    let sep = chars_of("\n");
    let joined = join_chars(&lines, &sep);
    string_of(&joined)
}

/// The write-ahead log beside a database file.
pub open spec fn wal_path_text(path: Seq<char>) -> Seq<char> {
    path + "-wal"@
}

/// The shared-memory file beside a database file.
pub open spec fn shm_path_text(path: Seq<char>) -> Seq<char> {
    path + "-shm"@
}

/// `wal_path` on the displayed path of a database.
pub fn wal_path(path: &str) -> (r: String)
    ensures
        r@ == wal_path_text(path@),
{
    let mut out = chars_of(path);
    extend_str(&mut out, "-wal");
    string_of(&out)
}

/// `shm_path` on the displayed path of a database.
pub fn shm_path(path: &str) -> (r: String)
    ensures
        r@ == shm_path_text(path@),
{
    let mut out = chars_of(path);
    extend_str(&mut out, "-shm");
    string_of(&out)
}

/// The copied summary never holds the database path or an error message:
/// it has the line "Database path: redacted" in place of the path, and it
/// ends with the line that counts the recent backend errors and says their
/// messages are omitted.
pub proof fn lemma_copy_summary_redacts(f: SummaryFacts)
    ensures
        ({
            let lines = summary_lines(f);
            &&& summary_text(f) == join_with(lines.take(5), "\n"@) + "\n"@
                + "Database path: redacted"@ + "\n"@ + join_with(lines.skip(6), "\n"@)
            &&& summary_text(f) == join_with(lines.drop_last(), "\n"@) + "\n"@
                + ("Recent backend errors: "@ + dec_digits(f.recent_errors as nat)
                + " present; messages omitted from copied summary"@)
        }),
{
    let lines = summary_lines(f);
    assert(lines.len() >= 12);
    lemma_join_with_split(lines, "\n"@, 5);
    lemma_join_with_split(lines.skip(5), "\n"@, 1);
    assert(lines.skip(5).take(1) =~= seq![lines[5]]);
    assert(lines.skip(5).skip(1) =~= lines.skip(6));
    assert(lines[5] == "Database path: redacted"@);
    lemma_join_with_split(lines, "\n"@, lines.len() - 1);
    assert(lines.take(lines.len() - 1) =~= lines.drop_last());
    assert(lines.skip(lines.len() - 1) =~= seq![lines.last()]);
}

} // verus!
