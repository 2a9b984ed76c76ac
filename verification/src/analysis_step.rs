//! The preflight of one analysis step as a state machine: the caller performs
//! each action against the store and the local model server, and hands back
//! what came of it; the machine decides what comes next.
use vstd::prelude::*;
use crate::analysis::ChapterRange;
use crate::errors::ApiError;
use crate::text::{owned, push_str, str_eq};

verus! {

/// Where the preflight stands.
#[derive(Debug, Clone, Copy, PartialEq, Eq, Structural)]
pub enum StepStage {
    Start,
    Resetting,
    LoadingJob,
    MarkingRunning,
    LoadingNovel,
    LoadingChapters,
    Finishing,
    CheckingHealth,
    Pausing,
    StartingChapter,
    Done,
}

/// The preflight's state: its stage, and the pause reason once there is one.
#[derive(Debug, Clone)]
pub struct StepState {
    pub stage: StepStage,
    pub pause_reason: Option<String>,
}

/// What came of the last action.
#[derive(Debug, Clone)]
pub enum StepEvent {
    /// The step was asked for, with its validated chapter range.
    Requested { force: bool, range: Option<ChapterRange> },
    /// The run (or its range) was reset.
    ResetDone,
    /// The job was looked up.
    JobLoaded { found: bool, status: String },
    /// The job was marked running; the novel it belongs to.
    JobMarkedRunning { novel_id: Option<String> },
    /// The novel was looked up.
    NovelLoaded { found: bool },
    /// The chapters and runs were loaded; whether a chapter is left to analyse.
    ChaptersLoaded { has_next_chapter: bool },
    /// The range or the job was finished.
    RangeFinished,
    /// The local model server answered a health check.
    HealthChecked { reachable: bool, status_text: Option<String> },
    /// The job was paused.
    Paused,
    /// The chapter run was started.
    ChapterStarted,
}

/// What the caller does next.
#[derive(Debug, Clone)]
pub enum StepAction {
    ResetRange { from: i64, to: i64 },
    ResetRun,
    LoadJob,
    MarkJobRunning,
    LoadNovel { novel_id: String },
    LoadChaptersAndRuns,
    FinishRangeOrJob,
    CheckHealth,
    PauseJob { reason: String, code: &'static str },
    StartChapter,
    /// Answer with the run's snapshot (with the pause reason, if any).
    ReturnSnapshot { reason: Option<String> },
    /// The chapter is ready to be analysed.
    Ready,
    Fail(ApiError),
}

/// A project event the caller publishes: its type and detail.
#[derive(Debug, Clone, Copy, PartialEq, Eq, Structural)]
pub enum StepNotice {
    Reset,
    Running,
    Finished,
    PausedUnreachable,
    ChapterStarted,
    IdentityChunkPersisted,
    MentionsChunkPersisted,
    FieldsChunkPersisted,
    RelationshipCandidatesPersisted,
}

impl StepNotice {
    pub fn event_type(&self) -> (r: &'static str)
        ensures
            r@ == notice_event_type(*self),
    {
        match self {
            StepNotice::Reset => "analysis_reset",
            StepNotice::Running => "analysis_running",
            StepNotice::Finished => "analysis_finished",
            StepNotice::PausedUnreachable => "analysis_paused",
            StepNotice::ChapterStarted => "analysis_chapter_started",
            StepNotice::IdentityChunkPersisted | StepNotice::MentionsChunkPersisted
            | StepNotice::FieldsChunkPersisted
            | StepNotice::RelationshipCandidatesPersisted => "story_extraction_updated",
        }
    }

    pub fn detail(&self) -> (r: &'static str)
        ensures
            r@ == notice_detail(*self),
    {
        match self {
            StepNotice::Reset => "analysis run reset before force run",
            StepNotice::Running => "analysis job marked running",
            StepNotice::Finished => "analysis range or job finished",
            StepNotice::PausedUnreachable => "local LLM unreachable",
            StepNotice::ChapterStarted => "analysis chapter started",
            StepNotice::IdentityChunkPersisted => "character identity chunk persisted",
            StepNotice::MentionsChunkPersisted => "character mentions chunk persisted",
            StepNotice::FieldsChunkPersisted => "character fields chunk persisted",
            StepNotice::RelationshipCandidatesPersisted => "character relationship candidates persisted",
        }
    }
}

pub open spec fn notice_event_type(n: StepNotice) -> Seq<char> {
    match n {
        StepNotice::Reset => "analysis_reset"@,
        StepNotice::Running => "analysis_running"@,
        StepNotice::Finished => "analysis_finished"@,
        StepNotice::PausedUnreachable => "analysis_paused"@,
        StepNotice::ChapterStarted => "analysis_chapter_started"@,
        StepNotice::IdentityChunkPersisted | StepNotice::MentionsChunkPersisted
        | StepNotice::FieldsChunkPersisted
        | StepNotice::RelationshipCandidatesPersisted => "story_extraction_updated"@,
    }
}

pub open spec fn notice_detail(n: StepNotice) -> Seq<char> {
    match n {
        StepNotice::Reset => "analysis run reset before force run"@,
        StepNotice::Running => "analysis job marked running"@,
        StepNotice::Finished => "analysis range or job finished"@,
        StepNotice::PausedUnreachable => "local LLM unreachable"@,
        StepNotice::ChapterStarted => "analysis chapter started"@,
        StepNotice::IdentityChunkPersisted => "character identity chunk persisted"@,
        StepNotice::MentionsChunkPersisted => "character mentions chunk persisted"@,
        StepNotice::FieldsChunkPersisted => "character fields chunk persisted"@,
        StepNotice::RelationshipCandidatesPersisted => "character relationship candidates persisted"@,
    }
}

/// The event the caller can hand back at a stage.
pub open spec fn event_fits(stage: StepStage, event: StepEvent) -> bool {
    match event {
        StepEvent::Requested { .. } => stage == StepStage::Start,
        StepEvent::ResetDone => stage == StepStage::Resetting,
        StepEvent::JobLoaded { .. } => stage == StepStage::LoadingJob,
        StepEvent::JobMarkedRunning { .. } => stage == StepStage::MarkingRunning,
        StepEvent::NovelLoaded { .. } => stage == StepStage::LoadingNovel,
        StepEvent::ChaptersLoaded { .. } => stage == StepStage::LoadingChapters,
        StepEvent::RangeFinished => stage == StepStage::Finishing,
        StepEvent::HealthChecked { .. } => stage == StepStage::CheckingHealth,
        StepEvent::Paused => stage == StepStage::Pausing,
        StepEvent::ChapterStarted => stage == StepStage::StartingChapter,
    }
}

pub const UNREACHABLE_PREFIX: &'static str = "Local llama.cpp kh\u{f4}ng reachable: ";

pub const UNREACHABLE_CODE: &'static str = "local_llm_unreachable";

pub const MSG_NOT_ATTACHED: &'static str = "analysis job is not attached to a novel";

/// The reason a step pauses when the local model server cannot be reached.
pub open spec fn unreachable_reason(status_text: Option<Seq<char>>) -> Seq<char> {
    UNREACHABLE_PREFIX@ + match status_text {
        Some(t) => t,
        None => "request failed"@,
    }
}

pub fn unreachable_reason_text(status_text: Option<String>) -> (r: String)
    ensures
        r@ == unreachable_reason(crate::text::opt_view(status_text)),
{
    let mut reason = owned(UNREACHABLE_PREFIX);
    match status_text {
        Some(t) => push_str(&mut reason, t.as_str()),
        None => push_str(&mut reason, "request failed"),
    }
    reason
}

/// The first state of a preflight.
pub fn start_analysis_step() -> (r: StepState)
    ensures
        r.stage == StepStage::Start,
        r.pause_reason is None,
{
    StepState { stage: StepStage::Start, pause_reason: None }
}

/// The preparation of an analysis step, one decision at a time: from the state and what
/// came of the last action to the next state, the next action, and the event
/// to publish.
pub fn analysis_step_transition(state: StepState, event: StepEvent) -> (r: (StepState, StepAction, Option<StepNotice>))
    requires
        event_fits(state.stage, event),
    ensures
        match event {
            StepEvent::Requested { force, range } => if !force {
                r.0.stage == StepStage::LoadingJob && r.1 is LoadJob && r.2 is None
            } else {
                r.0.stage == StepStage::Resetting && r.2 is None && match range {
                    Some(rg) => (r.1 matches StepAction::ResetRange { from, to } && from == rg.from && to
                        == rg.to),
                    None => r.1 is ResetRun,
                }
            },
            StepEvent::ResetDone => r.0.stage == StepStage::LoadingJob && r.1 is LoadJob && r.2
                == Some(StepNotice::Reset),
            StepEvent::JobLoaded { found, status } => r.2 is None && if !found {
                r.0.stage == StepStage::Done && (r.1 matches StepAction::Fail(e) && e.status == 404
                    && e.message@ == "analysis_job"@ + " was not found"@)
            } else if status@ == "completed"@ {
                r.0.stage == StepStage::Done && r.1 == (StepAction::ReturnSnapshot { reason: None })
            } else {
                r.0.stage == StepStage::MarkingRunning && r.1 is MarkJobRunning
            },
            StepEvent::JobMarkedRunning { novel_id } => r.2 == Some(StepNotice::Running) && match novel_id {
                Some(id) => r.0.stage == StepStage::LoadingNovel && (r.1 matches StepAction::LoadNovel {
                    novel_id,
                } && novel_id@ == id@),
                None => r.0.stage == StepStage::Done && (r.1 matches StepAction::Fail(e) && e.status
                    == 400 && e.message@ == MSG_NOT_ATTACHED@),
            },
            StepEvent::NovelLoaded { found } => r.2 is None && if found {
                r.0.stage == StepStage::LoadingChapters && r.1 is LoadChaptersAndRuns
            } else {
                r.0.stage == StepStage::Done && (r.1 matches StepAction::Fail(e) && e.status == 404
                    && e.message@ == "novel"@ + " was not found"@)
            },
            StepEvent::ChaptersLoaded { has_next_chapter } => r.2 is None && if has_next_chapter {
                r.0.stage == StepStage::CheckingHealth && r.1 is CheckHealth
            } else {
                r.0.stage == StepStage::Finishing && r.1 is FinishRangeOrJob
            },
            StepEvent::RangeFinished => r.0.stage == StepStage::Done && r.1 == (StepAction::ReturnSnapshot {
                reason: None,
            }) && r.2 == Some(StepNotice::Finished),
            StepEvent::HealthChecked { reachable, status_text } => r.2 is None && if reachable {
                r.0.stage == StepStage::StartingChapter && r.1 is StartChapter
            } else {
                let reason = unreachable_reason(crate::text::opt_view(status_text));
                &&& r.0.stage == StepStage::Pausing
                &&& r.0.pause_reason matches Some(p) && p@ == reason
                &&& r.1 matches StepAction::PauseJob { reason: p, code } && p@ == reason && code@
                    == UNREACHABLE_CODE@
            },
            StepEvent::Paused => r.0.stage == StepStage::Done && r.2 == Some(StepNotice::PausedUnreachable)
                && (r.1 matches StepAction::ReturnSnapshot { reason } && crate::text::opt_view(reason)
                == crate::text::opt_view(state.pause_reason)),
            StepEvent::ChapterStarted => r.0.stage == StepStage::Done && r.1 is Ready && r.2 == Some(
                StepNotice::ChapterStarted,
            ),
        },
{
    match event {
        StepEvent::Requested { force, range } => {
            if !force {
                (StepState { stage: StepStage::LoadingJob, pause_reason: None }, StepAction::LoadJob, None)
            } else {
                let action = match range {
                    Some(rg) => StepAction::ResetRange { from: rg.from, to: rg.to },
                    None => StepAction::ResetRun,
                };
                (StepState { stage: StepStage::Resetting, pause_reason: None }, action, None)
            }
        },
        StepEvent::ResetDone => (
            StepState { stage: StepStage::LoadingJob, pause_reason: None },
            StepAction::LoadJob,
            Some(StepNotice::Reset),
        ),
        StepEvent::JobLoaded { found, status } => {
            if !found {
                (
                    StepState { stage: StepStage::Done, pause_reason: None },
                    StepAction::Fail(ApiError::not_found("analysis_job")),
                    None,
                )
            } else if str_eq(status.as_str(), "completed") {
                (
                    StepState { stage: StepStage::Done, pause_reason: None },
                    StepAction::ReturnSnapshot { reason: None },
                    None,
                )
            } else {
                (
                    StepState { stage: StepStage::MarkingRunning, pause_reason: None },
                    StepAction::MarkJobRunning,
                    None,
                )
            }
        },
        StepEvent::JobMarkedRunning { novel_id } => match novel_id {
            Some(id) => (
                StepState { stage: StepStage::LoadingNovel, pause_reason: None },
                StepAction::LoadNovel { novel_id: id },
                Some(StepNotice::Running),
            ),
            None => (
                StepState { stage: StepStage::Done, pause_reason: None },
                StepAction::Fail(ApiError::bad_request(owned(MSG_NOT_ATTACHED))),
                Some(StepNotice::Running),
            ),
        },
        StepEvent::NovelLoaded { found } => {
            if found {
                (
                    StepState { stage: StepStage::LoadingChapters, pause_reason: None },
                    StepAction::LoadChaptersAndRuns,
                    None,
                )
            } else {
                (
                    StepState { stage: StepStage::Done, pause_reason: None },
                    StepAction::Fail(ApiError::not_found("novel")),
                    None,
                )
            }
        },
        StepEvent::ChaptersLoaded { has_next_chapter } => {
            if has_next_chapter {
                (
                    StepState { stage: StepStage::CheckingHealth, pause_reason: None },
                    StepAction::CheckHealth,
                    None,
                )
            } else {
                (
                    StepState { stage: StepStage::Finishing, pause_reason: None },
                    StepAction::FinishRangeOrJob,
                    None,
                )
            }
        },
        StepEvent::RangeFinished => (
            StepState { stage: StepStage::Done, pause_reason: None },
            StepAction::ReturnSnapshot { reason: None },
            Some(StepNotice::Finished),
        ),
        StepEvent::HealthChecked { reachable, status_text } => {
            if reachable {
                (
                    StepState { stage: StepStage::StartingChapter, pause_reason: None },
                    StepAction::StartChapter,
                    None,
                )
            } else {
                let reason = unreachable_reason_text(status_text);
                let kept = reason.clone();
                (
                    StepState { stage: StepStage::Pausing, pause_reason: Some(kept) },
                    StepAction::PauseJob { reason, code: UNREACHABLE_CODE },
                    None,
                )
            }
        },
        StepEvent::Paused => (
            StepState { stage: StepStage::Done, pause_reason: None },
            StepAction::ReturnSnapshot { reason: state.pause_reason },
            Some(StepNotice::PausedUnreachable),
        ),
        StepEvent::ChapterStarted => (
            StepState { stage: StepStage::Done, pause_reason: None },
            StepAction::Ready,
            Some(StepNotice::ChapterStarted),
        ),
    }
}

} // verus!
