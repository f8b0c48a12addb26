//! Background jobs (model downloads and benchmarks): their records, how a
//! finished job is reported, and the decisions of a benchmark run.
use vstd::prelude::*;
use crate::chat::{benchmark_progress_label, benchmark_progress_label_text, opt_string_view};
use crate::digits::{fnv1a, hex_digits, prompt_text_hash};
use crate::domain::{JobStatus, JobType};
use crate::text::{chars_of, extend_str, str_eq, string_of, string_views};

verus! {

/// A background job as stored.
pub struct Job {
    pub id: String,
    pub job_type: JobType,
    pub status: JobStatus,
    pub progress_current: Option<i64>,
    pub progress_total: Option<i64>,
    pub label: String,
    pub payload_json: Option<String>,
    pub result_json: Option<String>,
    pub error_message: Option<String>,
    pub created_at: i64,
    pub started_at: Option<i64>,
    pub completed_at: Option<i64>,
    pub cancelled_at: Option<i64>,
}

pub open spec fn terminal(status: JobStatus) -> bool {
    status == JobStatus::Cancelled || status == JobStatus::Succeeded || status == JobStatus::Failed
}

/// `is_terminal`: cancelled, succeeded and failed jobs are finished.
pub fn is_terminal(status: JobStatus) -> (r: bool)
    ensures
        r == terminal(status),
{
    match status {
        JobStatus::Cancelled | JobStatus::Succeeded | JobStatus::Failed => true,
        _ => false,
    }
}

/// What a command that waited for a job answers, by the job's final status.
pub open spec fn job_reply(status: JobStatus, error_message: Option<Seq<char>>) -> Result<(), Seq<char>> {
    match status {
        JobStatus::Cancelled => Err("Job cancelled"@),
        JobStatus::Failed => Err(
            match error_message {
                Some(m) => m,
                None => "Job failed"@,
            },
        ),
        _ => Ok(()),
    }
}

pub open spec fn job_result_view(r: Result<Job, String>) -> Result<(), Seq<char>> {
    match r {
        Ok(_) => Ok(()),
        Err(e) => Err(e@),
    }
}

/// The answer to a caller that waited for a download or benchmark job: a
/// finished job is handed back, except that a cancelled one becomes the
/// error "Job cancelled" and a failed one its error message.
pub fn finished_job_result(job: Job) -> (r: Result<Job, String>)
    ensures
        job_result_view(r) == job_reply(job.status, opt_string_view(job.error_message)),
        r is Ok ==> r->Ok_0 == job,
{
    match job.status {
        JobStatus::Cancelled => Err(String::from_str("Job cancelled")),
        JobStatus::Failed => {
            let message = match &job.error_message {
                Some(m) => m.clone(),
                None => String::from_str("Job failed"),
            };
            Err(message)
        },
        _ => Ok(job),
    }
}

/// Whether a request to cancel a job is acted on (the job is marked and its
/// task signalled): only while the job has not finished.
pub fn cancel_requested(status: JobStatus) -> (r: bool)
    ensures
        r == !terminal(status),
{
    !is_terminal(status)
}

/// How a model download ends.
#[derive(Clone, Copy, Debug, PartialEq, Eq, Structural)]
pub enum PullEnding {
    Succeeded,
    Cancelled,
    Failed,
}

pub open spec fn pull_ending(result: Result<(), Seq<char>>, cancelled: bool) -> PullEnding {
    match result {
        Ok(()) => if cancelled {
            PullEnding::Cancelled
        } else {
            PullEnding::Succeeded
        },
        Err(e) => if cancelled || e == "Job cancelled"@ {
            PullEnding::Cancelled
        } else {
            PullEnding::Failed
        },
    }
}

pub open spec fn unit_result_view(r: &Result<(), String>) -> Result<(), Seq<char>> {
    match r {
        Ok(()) => Ok(()),
        Err(e) => Err(e@),
    }
}

/// How a model download job ends: a download that was
/// cancelled (by the flag, or by the stream's "Job cancelled") is recorded
/// as cancelled, a finished one as succeeded, any other error as failed.
pub fn pull_job_ending(result: &Result<(), String>, cancelled: bool) -> (r: PullEnding)
    ensures
        r == pull_ending(unit_result_view(result), cancelled),
{
    match result {
        Ok(()) => if cancelled {
            PullEnding::Cancelled
        } else {
            PullEnding::Succeeded
        },
        Err(e) => if cancelled || str_eq(e.as_str(), "Job cancelled") {
            PullEnding::Cancelled
        } else {
            PullEnding::Failed
        },
    }
}

/// The label of a queued job.
pub fn queued_label(kind: &str, model: &str) -> (r: String)
    ensures
        r@ == "Queued "@ + kind@ + " for "@ + model@,
{
    let mut out = chars_of("Queued ");
    extend_str(&mut out, kind);
    extend_str(&mut out, " for ");
    extend_str(&mut out, model);
    string_of(&out)
}

// ---------------------------------------------------------------------------
// The benchmark suite
// ---------------------------------------------------------------------------

/// One prompt of the benchmark suite.
pub struct BenchmarkPrompt {
    pub prompt_type: &'static str,
    pub prompt_label: &'static str,
    pub prompt_text: &'static str,
}

/// Number of prompts in the suite.
pub const BENCHMARK_SUITE_LEN: usize = 5;

pub open spec fn suite_types() -> Seq<Seq<char>> {
    seq![
        "short_factual"@,
        "long_explanation"@,
        "code_explanation"@,
        "json_output"@,
        "summarization"@,
    ]
}

pub open spec fn suite_labels() -> Seq<Seq<char>> {
    seq!["Short factual"@, "Long explanation"@, "Code explanation"@, "JSON output"@, "Summarization"@]
}

pub open spec fn suite_texts() -> Seq<Seq<char>> {
    seq![
        "Answer in one concise sentence: What is SQLite WAL mode?"@,
        "Explain in four short paragraphs how local-first desktop AI apps can protect user data while still feeling responsive."@,
        "Explain what this Rust function does and mention one edge case:\n\nfn clamp(value: i32, min: i32, max: i32) -> i32 {\n    value.max(min).min(max)\n}"@,
        "Return only valid JSON with keys summary, risks, and next_steps for a local AI chat app benchmark."@,
        "Summarize this release note in three bullets: Atlas added local chat history, cancellable model downloads, generation diagnostics, SQLite FTS search, and database health reporting."@,
    ]
}

pub open spec fn prompt_views(v: Seq<BenchmarkPrompt>) -> Seq<(Seq<char>, Seq<char>, Seq<char>)> {
    v.map_values(|p: BenchmarkPrompt| (p.prompt_type@, p.prompt_label@, p.prompt_text@))
}

pub open spec fn suite_view() -> Seq<(Seq<char>, Seq<char>, Seq<char>)> {
    Seq::new(5, |i: int| (suite_types()[i], suite_labels()[i], suite_texts()[i]))
}

/// The benchmark suite, in the order it runs.
pub fn benchmark_suite() -> (r: Vec<BenchmarkPrompt>)
    ensures
        prompt_views(r@) == suite_view(),
{
    let r = vec![
        BenchmarkPrompt {
            prompt_type: "short_factual",
            prompt_label: "Short factual",
            prompt_text: "Answer in one concise sentence: What is SQLite WAL mode?",
        },
        BenchmarkPrompt {
            prompt_type: "long_explanation",
            prompt_label: "Long explanation",
            prompt_text: "Explain in four short paragraphs how local-first desktop AI apps can protect user data while still feeling responsive.",
        },
        BenchmarkPrompt {
            prompt_type: "code_explanation",
            prompt_label: "Code explanation",
            prompt_text: "Explain what this Rust function does and mention one edge case:\n\nfn clamp(value: i32, min: i32, max: i32) -> i32 {\n    value.max(min).min(max)\n}",
        },
        BenchmarkPrompt {
            prompt_type: "json_output",
            prompt_label: "JSON output",
            prompt_text: "Return only valid JSON with keys summary, risks, and next_steps for a local AI chat app benchmark.",
        },
        BenchmarkPrompt {
            prompt_type: "summarization",
            prompt_label: "Summarization",
            prompt_text: "Summarize this release note in three bullets: Atlas added local chat history, cancellable model downloads, generation diagnostics, SQLite FTS search, and database health reporting.",
        },
    ];
    assert(prompt_views(r@) =~= suite_view());
    r
}

/// A benchmark row to create: its prompt type, label and the hash of its
/// prompt text.
pub struct SuiteRow {
    pub prompt_type: String,
    pub prompt_label: String,
    pub prompt_text_hash: String,
}

pub open spec fn text_hash(text: Seq<char>) -> Seq<char> {
    hex_digits(fnv1a(vstd::utf8::encode_utf8(text)) as nat, 16)
}

pub open spec fn row_views(v: Seq<SuiteRow>) -> Seq<(Seq<char>, Seq<char>, Seq<char>)> {
    v.map_values(|r: SuiteRow| (r.prompt_type@, r.prompt_label@, r.prompt_text_hash@))
}

/// The stored rows of the benchmark suite: for each prompt of the suite, in order, its
/// type, its label and the hash of its text.
pub fn suite_rows() -> (r: Vec<SuiteRow>)
    ensures
        row_views(r@) == suite_view().map_values(
            |p: (Seq<char>, Seq<char>, Seq<char>)| (p.0, p.1, text_hash(p.2)),
        ),
{
    let suite = benchmark_suite();
    let ghost target = suite_view().map_values(
        |p: (Seq<char>, Seq<char>, Seq<char>)| (p.0, p.1, text_hash(p.2)),
    );
    let mut rows: Vec<SuiteRow> = Vec::new();
    let mut i: usize = 0;
    while i < suite.len()
        invariant
            i <= suite@.len(),
            prompt_views(suite@) == suite_view(),
            target == suite_view().map_values(
                |p: (Seq<char>, Seq<char>, Seq<char>)| (p.0, p.1, text_hash(p.2)),
            ),
            row_views(rows@) == target.take(i as int),
        decreases suite@.len() - i,
    {
        let p = &suite[i];
        let hash = prompt_text_hash(p.prompt_text);
        let row = SuiteRow {
            prompt_type: String::from_str(p.prompt_type),
            prompt_label: String::from_str(p.prompt_label),
            prompt_text_hash: hash,
        };
        let ghost before = row_views(rows@);
        rows.push(row);
        proof {
            assert(prompt_views(suite@)[i as int] == (p.prompt_type@, p.prompt_label@, p.prompt_text@));
            assert(row_views(rows@) =~= before.push((row.prompt_type@, row.prompt_label@, row.prompt_text_hash@)));
            assert(target.take(i as int + 1) =~= target.take(i as int).push(target[i as int]));
        }
        i = i + 1;
    }
    assert(target.take(suite@.len() as int) =~= target);
    rows
}

/// Durations recorded for a finished benchmark prompt: the total reported by
/// Ollama, or else the wall time; and the time to the first token, if any.
pub open spec fn benchmark_durations_spec(
    started_at: int,
    completed_at: int,
    first_token_at: Option<i64>,
    reported_total: Option<i64>,
) -> (Option<int>, Option<int>) {
    (
        match reported_total {
            Some(t) => Some(t as int),
            None => Some(saturate(completed_at - started_at)),
        },
        match first_token_at {
            Some(f) => Some(saturate(f - started_at)),
            None => None,
        },
    )
}

/// An integer held to the range of `i64`.
pub open spec fn saturate(v: int) -> int {
    if v > i64::MAX {
        i64::MAX as int
    } else if v < i64::MIN {
        i64::MIN as int
    } else {
        v
    }
}

fn saturating_sub(a: i64, b: i64) -> (r: i64)
    ensures
        r == saturate(a - b),
{
    let wide: i128 = a as i128 - b as i128;
    if wide > i64::MAX as i128 {
        i64::MAX
    } else if wide < i64::MIN as i128 {
        i64::MIN
    } else {
        wide as i64
    }
}

/// What a finished benchmark prompt records, over all inputs: the total is
/// Ollama's reported total when there is one, else the time from start to
/// completion; the time to the first token is measured from the start,
/// whatever the completion time and the reported total; there is none
/// without a first token.  A difference that leaves `i64` is held at its
/// nearest end.
pub proof fn lemma_benchmark_durations_measure_from_start(
    started_at: int,
    completed_at: int,
    first_token_at: Option<i64>,
    reported_total: Option<i64>,
    other_completed_at: int,
    other_total: Option<i64>,
)
    ensures
        ({
            let (total, first) = benchmark_durations_spec(
                started_at,
                completed_at,
                first_token_at,
                reported_total,
            );
            &&& first == benchmark_durations_spec(
                started_at,
                other_completed_at,
                first_token_at,
                other_total,
            ).1
            &&& first_token_at is None ==> first is None
            &&& (first_token_at matches Some(f) ==> (first matches Some(v) && (i64::MIN <= f
                - started_at <= i64::MAX ==> started_at + v == f) && (f - started_at > i64::MAX
                ==> v == i64::MAX) && (f - started_at < i64::MIN ==> v == i64::MIN)))
            &&& (reported_total matches Some(t) ==> total == Some(t as int))
            &&& (reported_total is None ==> (total matches Some(v) && (i64::MIN <= completed_at
                - started_at <= i64::MAX ==> started_at + v == completed_at)))
        }),
{
}

/// The durations a benchmark run records, in milliseconds.
pub fn benchmark_durations(
    started_at: i64,
    completed_at: i64,
    first_token_at: Option<i64>,
    reported_total: Option<i64>,
) -> (r: (Option<i64>, Option<i64>))
    ensures
        (match r.0 {
            Some(v) => Some(v as int),
            None => None::<int>,
        }, match r.1 {
            Some(v) => Some(v as int),
            None => None::<int>,
        }) == benchmark_durations_spec(
            started_at as int,
            completed_at as int,
            first_token_at,
            reported_total,
        ),
{
    let total = match reported_total {
        Some(t) => Some(t),
        None => Some(saturating_sub(completed_at, started_at)),
    };
    let first = match first_token_at {
        Some(f) => Some(saturating_sub(f, started_at)),
        None => None,
    };
    (total, first)
}

// ---------------------------------------------------------------------------
// The benchmark run
// ---------------------------------------------------------------------------

/// Where a benchmark run stands.
#[derive(Clone, Copy, Debug, PartialEq, Eq, Structural)]
pub enum BenchmarkPhase {
    /// The model has not been checked yet.
    Checking,
    /// Prompt `next` is about to run.
    Prompt { next: usize },
    /// Prompt `index` is running.
    Running { index: usize },
    /// The job has ended.
    Done,
}

/// How one benchmark prompt ended.
pub enum PromptOutcome {
    Completed,
    Cancelled,
    Failed { message: String },
}

/// What the runner reports.
pub enum BenchmarkEvent {
    /// The installed models were listed: is the model among them?
    ModelChecked { installed: bool },
    /// Before the next prompt: was its benchmark row found, and was
    /// cancellation requested?
    PromptReady { row_found: bool, cancelled: bool },
    /// The running prompt ended.
    PromptFinished { outcome: PromptOutcome },
}

/// What the runner must do next.
pub enum BenchmarkAction {
    /// Fail every remaining benchmark row and the job with this message.
    FailJob { message: String },
    /// Cancel every remaining benchmark row and the job.
    CancelJob,
    /// Stop with this error, leaving the job as it is.
    Abort { message: String },
    /// Look up the row of prompt `index` and the cancellation flag, and
    /// report them.
    PreparePrompt { index: usize },
    /// Set the job's progress to `current` of `total` with `label`, mark the
    /// prompt's row running and send the prompt to the model.
    RunPrompt { index: usize, current: i64, total: i64, label: String },
    /// Record the prompt's metrics and set the job's progress to `current`
    /// of `total` with `label`; then succeed the job when `finished`, else
    /// prepare the next prompt.
    RecordCompleted { index: usize, current: i64, total: i64, label: String, finished: bool },
    /// Mark the prompt's row cancelled, then cancel the job.
    RecordCancelled { index: usize },
    /// Mark the prompt's row failed with the message, then fail the job.
    RecordFailed { index: usize, message: String },
    /// No prompt to run: the job succeeded.
    Succeed,
    /// The event does not fit where the run stands; nothing to do.
    Ignore,
}

pub enum ActionView {
    FailJob(Seq<char>),
    CancelJob,
    Abort(Seq<char>),
    PreparePrompt(int),
    RunPrompt(int, int, int, Seq<char>),
    RecordCompleted(int, int, int, Seq<char>, bool),
    RecordCancelled(int),
    RecordFailed(int, Seq<char>),
    Succeed,
    Ignore,
}

pub open spec fn action_view(a: BenchmarkAction) -> ActionView {
    match a {
        BenchmarkAction::FailJob { message } => ActionView::FailJob(message@),
        BenchmarkAction::CancelJob => ActionView::CancelJob,
        BenchmarkAction::Abort { message } => ActionView::Abort(message@),
        BenchmarkAction::PreparePrompt { index } => ActionView::PreparePrompt(index as int),
        BenchmarkAction::RunPrompt { index, current, total, label } => ActionView::RunPrompt(
            index as int,
            current as int,
            total as int,
            label@,
        ),
        BenchmarkAction::RecordCompleted { index, current, total, label, finished } =>
            ActionView::RecordCompleted(index as int, current as int, total as int, label@, finished),
        BenchmarkAction::RecordCancelled { index } => ActionView::RecordCancelled(index as int),
        BenchmarkAction::RecordFailed { index, message } => ActionView::RecordFailed(
            index as int,
            message@,
        ),
        BenchmarkAction::Succeed => ActionView::Succeed,
        BenchmarkAction::Ignore => ActionView::Ignore,
    }
}

pub open spec fn not_installed_text() -> Seq<char> {
    "Model is not installed. Install it before benchmarking."@
}

pub open spec fn row_missing_text(prompt_type: Seq<char>) -> Seq<char> {
    "Benchmark row was not found for "@ + prompt_type
}

/// The decision for one event, over the model, the suite's prompt types and
/// labels, and where the run stands.
pub open spec fn bench_step(
    phase: BenchmarkPhase,
    model: Seq<char>,
    types: Seq<Seq<char>>,
    labels: Seq<Seq<char>>,
    event: BenchmarkEvent,
) -> (BenchmarkPhase, ActionView) {
    let total = labels.len() as int;
    match (phase, event) {
        (BenchmarkPhase::Checking, BenchmarkEvent::ModelChecked { installed }) => if !installed {
            (BenchmarkPhase::Done, ActionView::FailJob(not_installed_text()))
        } else if total == 0 {
            (BenchmarkPhase::Done, ActionView::Succeed)
        } else {
            (BenchmarkPhase::Prompt { next: 0 }, ActionView::PreparePrompt(0))
        },
        (BenchmarkPhase::Prompt { next }, BenchmarkEvent::PromptReady { row_found, cancelled }) =>
            if !row_found {
            (BenchmarkPhase::Done, ActionView::Abort(row_missing_text(types[next as int])))
        } else if cancelled {
            (BenchmarkPhase::Done, ActionView::CancelJob)
        } else {
            (
                BenchmarkPhase::Running { index: next },
                ActionView::RunPrompt(
                    next as int,
                    next as int,
                    total,
                    benchmark_progress_label_text(model, labels[next as int], next as int, total),
                ),
            )
        },
        (BenchmarkPhase::Running { index }, BenchmarkEvent::PromptFinished { outcome }) =>
            match outcome {
            PromptOutcome::Completed => {
                let finished = index + 1 == total;
                (
                    if finished {
                        BenchmarkPhase::Done
                    } else {
                        BenchmarkPhase::Prompt { next: (index + 1) as usize }
                    },
                    ActionView::RecordCompleted(
                        index as int,
                        index + 1,
                        total,
                        benchmark_progress_label_text(model, labels[index as int], index + 1, total),
                        finished,
                    ),
                )
            },
            PromptOutcome::Cancelled => (BenchmarkPhase::Done, ActionView::RecordCancelled(
                index as int,
            )),
            PromptOutcome::Failed { message } => (
                BenchmarkPhase::Done,
                ActionView::RecordFailed(index as int, message@),
            ),
        },
        _ => (phase, ActionView::Ignore),
    }
}

/// A benchmark run of one model over the suite's prompts.
pub struct BenchmarkRun {
    pub model: String,
    pub prompt_types: Vec<String>,
    pub prompt_labels: Vec<String>,
    pub phase: BenchmarkPhase,
}

/// The run's invariant: one type per label, and the phase points into the
/// suite.
pub open spec fn run_wf(run: &BenchmarkRun) -> bool {
    &&& run.prompt_labels@.len() < i64::MAX
    &&& run.prompt_types@.len() == run.prompt_labels@.len()
    &&& match run.phase {
        BenchmarkPhase::Prompt { next } => next < run.prompt_labels@.len(),
        BenchmarkPhase::Running { index } => index < run.prompt_labels@.len(),
        _ => true,
    }
}

impl BenchmarkRun {
    /// A run that has not checked its model yet.
    pub fn new(model: String, prompt_types: Vec<String>, prompt_labels: Vec<String>) -> (r:
        BenchmarkRun)
        requires
            prompt_labels@.len() < i64::MAX,
            prompt_types@.len() == prompt_labels@.len(),
        ensures
            r.model == model,
            r.prompt_types == prompt_types,
            r.prompt_labels == prompt_labels,
            r.phase == BenchmarkPhase::Checking,
            run_wf(&r),
    {
        BenchmarkRun { model, prompt_types, prompt_labels, phase: BenchmarkPhase::Checking }
    }

    /// The decisions of a benchmark job, one event at a time: a
    /// model that is not installed fails the job; before each prompt a
    /// missing row aborts and a cancellation cancels the job, else the
    /// prompt runs under its progress label; a completed prompt advances
    /// the progress (and after the last one the job succeeds), a cancelled
    /// one cancels the job, a failed one fails it with its message.
    pub fn step(&mut self, event: BenchmarkEvent) -> (action: BenchmarkAction)
        requires
            run_wf(old(self)),
        ensures
            run_wf(final(self)),
            final(self).model == old(self).model,
            final(self).prompt_types == old(self).prompt_types,
            final(self).prompt_labels == old(self).prompt_labels,
            (final(self).phase, action_view(action)) == bench_step(
                old(self).phase,
                old(self).model@,
                old(self).prompt_types@.map_values(|t: String| t@),
                old(self).prompt_labels@.map_values(|l: String| l@),
                event,
            ),
    {
        let total = self.prompt_labels.len();
        let ghost types = self.prompt_types@.map_values(|t: String| t@);
        let ghost labels = self.prompt_labels@.map_values(|l: String| l@);
        match self.phase {
            BenchmarkPhase::Checking => match event {
                BenchmarkEvent::ModelChecked { installed } => {
                    if !installed {
                        self.phase = BenchmarkPhase::Done;
                        BenchmarkAction::FailJob {
                            message: String::from_str(
                                "Model is not installed. Install it before benchmarking.",
                            ),
                        }
                    } else if total == 0 {
                        self.phase = BenchmarkPhase::Done;
                        BenchmarkAction::Succeed
                    } else {
                        self.phase = BenchmarkPhase::Prompt { next: 0 };
                        BenchmarkAction::PreparePrompt { index: 0 }
                    }
                },
                _ => BenchmarkAction::Ignore,
            },
            BenchmarkPhase::Prompt { next } => match event {
                BenchmarkEvent::PromptReady { row_found, cancelled } => {
                    if !row_found {
                        self.phase = BenchmarkPhase::Done;
                        let mut m = chars_of("Benchmark row was not found for ");
                        extend_str(&mut m, self.prompt_types[next].as_str());
                        assert(types[next as int] == self.prompt_types@[next as int]@);
                        BenchmarkAction::Abort { message: string_of(&m) }
                    } else if cancelled {
                        self.phase = BenchmarkPhase::Done;
                        BenchmarkAction::CancelJob
                    } else {
                        let label = benchmark_progress_label(
                            self.model.as_str(),
                            self.prompt_labels[next].as_str(),
                            next as i64,
                            total as i64,
                        );
                        assert(labels[next as int] == self.prompt_labels@[next as int]@);
                        self.phase = BenchmarkPhase::Running { index: next };
                        BenchmarkAction::RunPrompt {
                            index: next,
                            current: next as i64,
                            total: total as i64,
                            label,
                        }
                    }
                },
                _ => BenchmarkAction::Ignore,
            },
            BenchmarkPhase::Running { index } => match event {
                BenchmarkEvent::PromptFinished { outcome } => match outcome {
                    PromptOutcome::Completed => {
                        let finished = index + 1 == total;
                        let label = benchmark_progress_label(
                            self.model.as_str(),
                            self.prompt_labels[index].as_str(),
                            index as i64 + 1,
                            total as i64,
                        );
                        assert(labels[index as int] == self.prompt_labels@[index as int]@);
                        self.phase = if finished {
                            BenchmarkPhase::Done
                        } else {
                            BenchmarkPhase::Prompt { next: index + 1 }
                        };
                        BenchmarkAction::RecordCompleted {
                            index,
                            current: index as i64 + 1,
                            total: total as i64,
                            label,
                            finished,
                        }
                    },
                    PromptOutcome::Cancelled => {
                        self.phase = BenchmarkPhase::Done;
                        BenchmarkAction::RecordCancelled { index }
                    },
                    PromptOutcome::Failed { message } => {
                        self.phase = BenchmarkPhase::Done;
                        BenchmarkAction::RecordFailed { index, message }
                    },
                },
                _ => BenchmarkAction::Ignore,
            },
            BenchmarkPhase::Done => BenchmarkAction::Ignore,
        }
    }
}

/// A run that has ended ignores every later event.
pub proof fn lemma_benchmark_done_is_final(
    model: Seq<char>,
    types: Seq<Seq<char>>,
    labels: Seq<Seq<char>>,
    event: BenchmarkEvent,
)
    ensures
        bench_step(BenchmarkPhase::Done, model, types, labels, event) == (
            BenchmarkPhase::Done,
            ActionView::Ignore,
        ),
{
}

/// Prompts run in suite order and the reported progress never passes the
/// suite's size: a prompt runs at progress equal to its index, a completed
/// prompt moves the progress one further, and the job is declared finished
/// exactly when that reaches the total.
pub proof fn lemma_benchmark_progress(
    phase: BenchmarkPhase,
    model: Seq<char>,
    types: Seq<Seq<char>>,
    labels: Seq<Seq<char>>,
    event: BenchmarkEvent,
)
    requires
        match phase {
            BenchmarkPhase::Prompt { next } => next < labels.len(),
            BenchmarkPhase::Running { index } => index < labels.len(),
            _ => true,
        },
    ensures
        match bench_step(phase, model, types, labels, event).1 {
            ActionView::RunPrompt(i, current, total, _) => phase == (BenchmarkPhase::Prompt {
                next: i as usize,
            }) && current == i && 0 <= i < total == labels.len(),
            ActionView::RecordCompleted(i, current, total, _, finished) => phase
                == (BenchmarkPhase::Running { index: i as usize }) && current == i + 1 && current
                <= total == labels.len() && finished == (current == total),
            ActionView::PreparePrompt(i) => phase == BenchmarkPhase::Checking && i == 0 && labels.len() > 0,
            _ => true,
        },
        match bench_step(phase, model, types, labels, event).0 {
            BenchmarkPhase::Prompt { next } => next < labels.len(),
            BenchmarkPhase::Running { index } => index < labels.len(),
            _ => true,
        },
{
}

// ---------------------------------------------------------------------------
// What a benchmark run looks up
// ---------------------------------------------------------------------------

/// A benchmark runs only on an installed model: one whose name is among
/// the installed models' names.
pub fn model_installed(names: &Vec<String>, model: &str) -> (r: bool)
    ensures
        r == string_views(names@).contains(model@),
{
    let mut i: usize = 0;
    while i < names.len()
        invariant
            i <= names@.len(),
            forall|j: int| 0 <= j < i ==> names@[j]@ != model@,
        decreases names@.len() - i,
    {
        if str_eq(names[i].as_str(), model) {
            assert(string_views(names@)[i as int] == model@);
            return true;
        }
        i = i + 1;
    }
    assert forall|j: int| 0 <= j < string_views(names@).len() implies string_views(names@)[j]
        != model@ by {
        assert(string_views(names@)[j] == names@[j]@);
    }
    false
}

/// The stored row of a prompt: the first row whose prompt type is the
/// prompt's, if there is one.
pub fn benchmark_row_index(row_prompt_types: &Vec<String>, prompt_type: &str) -> (r: Option<usize>)
    ensures
        match r {
            Some(i) => i < row_prompt_types@.len() && row_prompt_types@[i as int]@ == prompt_type@
                && forall|j: int| 0 <= j < i ==> (#[trigger] row_prompt_types@[j])@ != prompt_type@,
            None => forall|j: int|
                0 <= j < row_prompt_types@.len() ==> (#[trigger] row_prompt_types@[j])@
                    != prompt_type@,
        },
{
    let mut i: usize = 0;
    while i < row_prompt_types.len()
        invariant
            i <= row_prompt_types@.len(),
            forall|j: int| 0 <= j < i ==> (#[trigger] row_prompt_types@[j])@ != prompt_type@,
        decreases row_prompt_types@.len() - i,
    {
        if str_eq(row_prompt_types[i].as_str(), prompt_type) {
            return Some(i);
        }
        i = i + 1;
    }
    None
}

} // verus!
