//! Job kinds, the job status state machine and its transition rules.
use vstd::prelude::*;
use crate::text::{is_ws, str_eq, trim, trim_end, trim_start, trim_str};

verus! {

#[derive(Debug, Clone, Copy, PartialEq, Eq, Structural)]
pub enum JobKind {
    Analysis,
    Translation,
    Import,
    Indexing,
}

#[derive(Debug, Clone, Copy, PartialEq, Eq, Structural)]
pub enum JobStatus {
    Pending,
    Running,
    Completed,
    Failed,
    Cancelled,
}

#[derive(Debug, PartialEq, Eq)]
pub enum JobTransitionError {
    UnknownStatus(String),
    InvalidTransition { from: &'static str, to: &'static str },
}

pub open spec fn job_kind_name(kind: JobKind) -> Seq<char> {
    match kind {
        JobKind::Analysis => "analysis"@,
        JobKind::Translation => "translation"@,
        JobKind::Import => "import"@,
        JobKind::Indexing => "indexing"@,
    }
}

pub open spec fn job_status_name(status: JobStatus) -> Seq<char> {
    match status {
        JobStatus::Pending => "pending"@,
        JobStatus::Running => "running"@,
        JobStatus::Completed => "completed"@,
        JobStatus::Failed => "failed"@,
        JobStatus::Cancelled => "cancelled"@,
    }
}

/// The status whose name is `name`, if any.
pub open spec fn job_status_named(name: Seq<char>) -> Option<JobStatus> {
    if name == "pending"@ {
        Some(JobStatus::Pending)
    } else if name == "running"@ {
        Some(JobStatus::Running)
    } else if name == "completed"@ {
        Some(JobStatus::Completed)
    } else if name == "failed"@ {
        Some(JobStatus::Failed)
    } else if name == "cancelled"@ {
        Some(JobStatus::Cancelled)
    } else {
        None
    }
}

pub open spec fn job_status_is_terminal(status: JobStatus) -> bool {
    status == JobStatus::Completed || status == JobStatus::Failed || status == JobStatus::Cancelled
}

/// The transitions the job queue accepts: staying put, or one of the listed moves.
pub open spec fn transition_allowed(from: JobStatus, to: JobStatus) -> bool {
    ||| from == to
    ||| (from == JobStatus::Pending && to == JobStatus::Running)
    ||| (from == JobStatus::Pending && to == JobStatus::Cancelled)
    ||| (from == JobStatus::Running && to == JobStatus::Completed)
    ||| (from == JobStatus::Running && to == JobStatus::Failed)
    ||| (from == JobStatus::Running && to == JobStatus::Cancelled)
    ||| (from == JobStatus::Failed && to == JobStatus::Pending)
}

pub open spec fn cancel_event_name(kind: JobKind) -> Seq<char> {
    match kind {
        JobKind::Analysis => "analysis_job_cancelled"@,
        JobKind::Translation => "translation_job_cancelled"@,
        JobKind::Import => "import_job_cancelled"@,
        JobKind::Indexing => "indexing_job_cancelled"@,
    }
}

impl JobKind {
    pub fn as_str(self) -> (r: &'static str)
        ensures
            r@ == job_kind_name(self),
    {
        match self {
            JobKind::Analysis => "analysis",
            JobKind::Translation => "translation",
            JobKind::Import => "import",
            JobKind::Indexing => "indexing",
        }
    }
}

impl JobStatus {
    pub fn as_str(self) -> (r: &'static str)
        ensures
            r@ == job_status_name(self),
    {
        match self {
            JobStatus::Pending => "pending",
            JobStatus::Running => "running",
            JobStatus::Completed => "completed",
            JobStatus::Failed => "failed",
            JobStatus::Cancelled => "cancelled",
        }
    }

    /// Reads a status name, ignoring surrounding whitespace.
    pub fn parse(value: &str) -> (r: Result<JobStatus, JobTransitionError>)
        ensures
            match r {
                Ok(s) => job_status_named(trim(value@)) == Some(s),
                Err(JobTransitionError::UnknownStatus(other)) => job_status_named(trim(value@))
                    is None && other@ == trim(value@),
                Err(_) => false,
            },
    {
        let t = trim_str(value);
        if str_eq(t.as_str(), "pending") {
            Ok(JobStatus::Pending)
        } else if str_eq(t.as_str(), "running") {
            Ok(JobStatus::Running)
        } else if str_eq(t.as_str(), "completed") {
            Ok(JobStatus::Completed)
        } else if str_eq(t.as_str(), "failed") {
            Ok(JobStatus::Failed)
        } else if str_eq(t.as_str(), "cancelled") {
            Ok(JobStatus::Cancelled)
        } else {
            Err(JobTransitionError::UnknownStatus(t))
        }
    }

    pub fn is_terminal(self) -> (r: bool)
        ensures
            r == job_status_is_terminal(self),
    {
        match self {
            JobStatus::Completed | JobStatus::Failed | JobStatus::Cancelled => true,
            _ => false,
        }
    }
}

/// Checks a status change against the job state machine.
pub fn validate_transition(from: JobStatus, to: JobStatus) -> (r: Result<(), JobTransitionError>)
    ensures
        match r {
            Ok(()) => transition_allowed(from, to),
            Err(JobTransitionError::InvalidTransition { from: f, to: t }) => !transition_allowed(
                from,
                to,
            ) && f@ == job_status_name(from) && t@ == job_status_name(to),
            Err(_) => false,
        },
{
    if from == to {
        return Ok(());
    }
    let allowed = match (from, to) {
        (JobStatus::Pending, JobStatus::Running) => true,
        (JobStatus::Pending, JobStatus::Cancelled) => true,
        (JobStatus::Running, JobStatus::Completed) => true,
        (JobStatus::Running, JobStatus::Failed) => true,
        (JobStatus::Running, JobStatus::Cancelled) => true,
        (JobStatus::Failed, JobStatus::Pending) => true,
        _ => false,
    };
    if allowed {
        Ok(())
    } else {
        Err(JobTransitionError::InvalidTransition { from: from.as_str(), to: to.as_str() })
    }
}

/// The event type recorded when a job of this kind is cancelled.
pub fn cancel_event_type(kind: JobKind) -> (r: &'static str)
    ensures
        r@ == cancel_event_name(kind),
{
    match kind {
        JobKind::Analysis => "analysis_job_cancelled",
        JobKind::Translation => "translation_job_cancelled",
        JobKind::Import => "import_job_cancelled",
        JobKind::Indexing => "indexing_job_cancelled",
    }
}

/// Every status name reads back as the status it names.
pub proof fn lemma_status_name_round_trip(status: JobStatus)
    ensures
        job_status_named(job_status_name(status)) == Some(status),
        trim(job_status_name(status)) == job_status_name(status),
{
    reveal_strlit("pending");
    reveal_strlit("running");
    reveal_strlit("completed");
    reveal_strlit("failed");
    reveal_strlit("cancelled");
    assert("pending"@[0] != "running"@[0]);
    assert("pending"@[0] != "completed"@[0]);
    assert("pending"@[0] != "failed"@[0]);
    assert("pending"@[0] != "cancelled"@[0]);
    assert("running"@[0] != "completed"@[0]);
    assert("running"@[0] != "failed"@[0]);
    assert("running"@[0] != "cancelled"@[0]);
    assert("completed"@[0] != "failed"@[0]);
    assert("completed"@[1] != "cancelled"@[1]);
    assert("failed"@[0] != "cancelled"@[0]);
    let n = job_status_name(status);
    assert(n.len() > 0 && !is_ws(n[0]) && !is_ws(n.last()));
    assert(trim_start(n) == n);
    assert(trim_end(n) == n);
}

/// A completed or cancelled job never moves to another status, and a failed job
/// may only go back to pending.
pub proof fn lemma_terminal_states_are_final(from: JobStatus, to: JobStatus)
    requires
        job_status_is_terminal(from),
        from != to,
        !(from == JobStatus::Failed && to == JobStatus::Pending),
    ensures
        !transition_allowed(from, to),
{
}

/// Every allowed transition leaves a non-terminal status, except the retry of a
/// failed job.
pub proof fn lemma_moves_leave_live_states(from: JobStatus, to: JobStatus)
    requires
        transition_allowed(from, to),
        from != to,
    ensures
        !job_status_is_terminal(from) || (from == JobStatus::Failed && to == JobStatus::Pending),
{
}

} // verus!
