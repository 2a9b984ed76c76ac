//! The local analysis of one chapter as a state machine. The chapter is
//! taken chunk by chunk: a candidate pass, an identity pass, an alias
//! ownership pass, the resolution of the identities, then, for each
//! identity, a mention scan and a fields pass; after the last chunk comes the
//! relationship pass, then the check of the merged records. The caller
//! performs each action (a model call, a store write, a stop check) and hands
//! back what came of it; the machine decides what comes next.
use vstd::prelude::*;
use crate::chunk_prompts::{
    build_alias_ownership_context, build_candidate_pass_context, build_chunk_base_context,
    build_identity_pass_context, build_target_contexts_context, chunk_base_context, chunk_failure,
    chunk_failure_reason, chunk_position, merged_validation_failure_reason, relationship_pass_failure_reason,
    CANDIDATE_CHECKLIST_INTRO, CANDIDATE_CHECKLIST_RULE, KNOWN_SURFACES_INTRO, KNOWN_SURFACES_RULE,
    OWNERSHIP_INTRO, OWNERSHIP_RULE, TARGET_CONTEXTS_INTRO, TARGET_CONTEXTS_RULES,
};
use crate::analysis_step::StepNotice;
use crate::text::owned;

verus! {

/// Where the analysis of a chapter stands.
#[derive(Debug, Clone, Copy, PartialEq, Eq, Structural)]
pub enum ChapterStage {
    Start,
    ChunkStopCheck,
    LoadingChunk,
    CandidatePass,
    IdentityPass,
    OwnershipPass,
    Resolving,
    IdentityStopCheck,
    MentionScan,
    FieldContexts,
    FieldsPass,
    FieldVerification,
    ChunkEndStopCheck,
    RelationshipPass,
    Validating,
    Done,
}

/// The state of the analysis of a chapter: its stage, the chunk and the
/// identity it is at, and the contexts the passes of the chunk share.
#[derive(Debug, Clone)]
pub struct ChapterStepState {
    pub stage: ChapterStage,
    pub chunk: usize,
    pub chunk_count: usize,
    pub identity: usize,
    pub identity_count: usize,
    pub novel_context: String,
    pub known_alias_context: String,
}

/// What came of the last action.
#[derive(Debug, Clone)]
pub enum ChapterStepEvent {
    /// The chapter was split into chunks; the context of the novel.
    Begun { chunk_count: usize, novel_context: String },
    /// The job was checked for a stop request.
    StopChecked { stop: bool },
    /// The records and aliases of earlier chapters were read; the known
    /// surfaces found in the chunk.
    ChunkLoaded { known_alias_context: String },
    /// The candidate pass answered (a failure leaves no candidates).
    CandidatesAnswered { candidate_context: String },
    /// The identity pass answered, or failed with a message; the quoted
    /// surfaces found in the chunk once the identities were merged.
    IdentitiesAnswered { error: Option<String>, quoted_alias_context: String },
    /// The alias ownership pass answered (a failure is not blocking).
    OwnershipAnswered,
    /// The identities were resolved across chapters and stored.
    IdentitiesPersisted { identity_count: usize },
    /// The mention scan of the identity was done, or failed.
    MentionsScanned { error: Option<String>, identity_name: String },
    /// The target contexts of the identity were chosen.
    FieldContextsBuilt { has_contexts: bool },
    /// The fields pass answered, or failed.
    FieldsAnswered { error: Option<String>, identity_name: String },
    /// The fields were checked, merged and stored.
    FieldsPersisted,
    /// The relationship pass was done, or failed.
    RelationshipsAnswered { error: Option<String> },
    /// The merged records were checked.
    Validated { error: Option<String> },
}

/// What the caller does next.
#[derive(Debug, Clone)]
pub enum ChapterStepAction {
    /// Check whether the job was asked to stop.
    CheckStop,
    /// Read the records and aliases of earlier chapters for the chunk.
    LoadChunk { chunk: usize },
    /// Ask the candidate pass, with this context.
    CallCandidatePass { prior_context: String },
    /// Ask the identity pass, with this context.
    CallIdentityPass { prior_context: String },
    /// Ask the alias ownership pass, with this context.
    CallAliasOwnershipPass { prior_context: String },
    /// Apply the ownerships, resolve the identities across chapters, merge
    /// them into the working document and store it.
    ResolveAndPersistIdentities,
    /// Scan the chunk for the mentions of this identity and store them.
    ScanMentions { identity: usize },
    /// Choose the target contexts of this identity.
    BuildFieldContexts { identity: usize },
    /// Ask the fields pass for this identity, with this context.
    CallFieldsPass { identity: usize, prior_context: String },
    /// Check, merge and store the fields of this identity (none were asked
    /// for when `answered` is false).
    VerifyAndPersistFields { identity: usize, answered: bool },
    /// Run the relationship pass over the chapter.
    CallRelationshipPass,
    /// Check the merged records.
    Validate,
    /// Fail the chapter run, pause the job with this reason and code, and
    /// publish the pause with this detail.
    FailAndPause { code: &'static str, reason: String, detail: &'static str },
    /// Complete the chapter run, publish it, and finish the range or job.
    Complete,
    /// Answer with the run's snapshot.
    ReturnSnapshot,
}

pub const CODE_IDENTITY_FAILED: &'static str = "character_identity_pass_failed";

pub const CODE_MENTIONS_FAILED: &'static str = "character_mentions_backend_scan_failed";

pub const CODE_FIELDS_FAILED: &'static str = "character_fields_pass_failed";

pub const CODE_RELATIONSHIP_FAILED: &'static str = "character_relationship_pass_failed";

pub const CODE_VALIDATION_FAILED: &'static str = "character_extraction_validation_failed";

pub const DETAIL_VALIDATION_FAILED: &'static str = "character extraction validation failed";

/// The indexes a stage is at lie in range.
pub open spec fn chapter_state_wf(s: ChapterStepState) -> bool {
    &&& match s.stage {
        ChapterStage::Start | ChapterStage::RelationshipPass | ChapterStage::Validating | ChapterStage::Done => true,
        _ => s.chunk < s.chunk_count,
    }
    &&& match s.stage {
        ChapterStage::IdentityStopCheck | ChapterStage::MentionScan | ChapterStage::FieldContexts
        | ChapterStage::FieldsPass | ChapterStage::FieldVerification => s.identity < s.identity_count,
        _ => true,
    }
}

/// The event the caller can hand back at a stage.
pub open spec fn chapter_event_fits(stage: ChapterStage, event: ChapterStepEvent) -> bool {
    match event {
        ChapterStepEvent::Begun { .. } => stage == ChapterStage::Start,
        ChapterStepEvent::StopChecked { .. } => stage == ChapterStage::ChunkStopCheck || stage
            == ChapterStage::IdentityStopCheck || stage == ChapterStage::ChunkEndStopCheck,
        ChapterStepEvent::ChunkLoaded { .. } => stage == ChapterStage::LoadingChunk,
        ChapterStepEvent::CandidatesAnswered { .. } => stage == ChapterStage::CandidatePass,
        ChapterStepEvent::IdentitiesAnswered { .. } => stage == ChapterStage::IdentityPass,
        ChapterStepEvent::OwnershipAnswered => stage == ChapterStage::OwnershipPass,
        ChapterStepEvent::IdentitiesPersisted { .. } => stage == ChapterStage::Resolving,
        ChapterStepEvent::MentionsScanned { .. } => stage == ChapterStage::MentionScan,
        ChapterStepEvent::FieldContextsBuilt { .. } => stage == ChapterStage::FieldContexts,
        ChapterStepEvent::FieldsAnswered { .. } => stage == ChapterStage::FieldsPass,
        ChapterStepEvent::FieldsPersisted => stage == ChapterStage::FieldVerification,
        ChapterStepEvent::RelationshipsAnswered { .. } => stage == ChapterStage::RelationshipPass,
        ChapterStepEvent::Validated { .. } => stage == ChapterStage::Validating,
    }
}

/// The context every pass over the current chunk starts from.
pub open spec fn state_base(s: ChapterStepState) -> Seq<char> {
    chunk_base_context(s.novel_context@, s.chunk as int, s.chunk_count as int)
}

/// The state moves to `stage`, at the same chunk and identity, with the same
/// contexts.
pub open spec fn moved(r: ChapterStepState, s: ChapterStepState, stage: ChapterStage) -> bool {
    &&& r.stage == stage
    &&& r.chunk == s.chunk
    &&& r.chunk_count == s.chunk_count
    &&& r.identity == s.identity
    &&& r.identity_count == s.identity_count
    &&& r.novel_context@ == s.novel_context@
    &&& r.known_alias_context@ == s.known_alias_context@
}

/// The failure of a pass: the machine is done, and the chapter pauses with
/// this code and reason.
pub open spec fn fails_with(
    r: (ChapterStepState, ChapterStepAction),
    code: Seq<char>,
    reason: Seq<char>,
    detail: Seq<char>,
) -> bool {
    r.0.stage == ChapterStage::Done && (r.1 matches ChapterStepAction::FailAndPause { code: c, reason: m, detail: d }
        && c@ == code && m@ == reason && d@ == detail)
}

fn move_to(s: ChapterStepState, stage: ChapterStage) -> (r: ChapterStepState)
    ensures
        moved(r, s, stage),
{
    ChapterStepState { stage, ..s }
}

fn done() -> (r: ChapterStepState)
    ensures
        r.stage == ChapterStage::Done,
{
    ChapterStepState {
        stage: ChapterStage::Done,
        chunk: 0,
        chunk_count: 0,
        identity: 0,
        identity_count: 0,
        novel_context: String::new(),
        known_alias_context: String::new(),
    }
}

fn fail(code: &'static str, reason: String, detail: &'static str) -> (r: (ChapterStepState, ChapterStepAction))
    ensures
        fails_with(r, code@, reason@, detail@),
{
    (done(), ChapterStepAction::FailAndPause { code, reason, detail })
}

/// The first state of the analysis of a chapter.
pub fn start_chapter_analysis() -> (r: ChapterStepState)
    ensures
        r.stage == ChapterStage::Start,
        chapter_state_wf(r),
{
    ChapterStepState {
        stage: ChapterStage::Start,
        chunk: 0,
        chunk_count: 0,
        identity: 0,
        identity_count: 0,
        novel_context: String::new(),
        known_alias_context: String::new(),
    }
}

/// What one step of the analysis of a chapter gives: the next state and
/// action, for the state and what came of the last action.
pub open spec fn chapter_step(
    state: ChapterStepState,
    event: ChapterStepEvent,
    r: (ChapterStepState, ChapterStepAction),
) -> bool {
    &&& chapter_state_wf(r.0)
    &&& match event {
        ChapterStepEvent::Begun { chunk_count, novel_context } => if chunk_count == 0 {
            r.0.stage == ChapterStage::RelationshipPass && r.1 is CallRelationshipPass
        } else {
            &&& r.0.stage == ChapterStage::ChunkStopCheck
            &&& r.0.chunk == 0 && r.0.chunk_count == chunk_count
            &&& r.0.novel_context@ == novel_context@
            &&& r.1 is CheckStop
        },
        ChapterStepEvent::StopChecked { stop } => if stop {
            r.0.stage == ChapterStage::Done && r.1 is ReturnSnapshot
        } else {
            match state.stage {
                ChapterStage::ChunkStopCheck => moved(r.0, state, ChapterStage::LoadingChunk) && (r.1 matches ChapterStepAction::LoadChunk { chunk } && chunk == state.chunk),
                ChapterStage::IdentityStopCheck => moved(r.0, state, ChapterStage::MentionScan) && (r.1 matches ChapterStepAction::ScanMentions { identity } && identity == state.identity),
                _ => if state.chunk + 1 < state.chunk_count {
                    &&& r.0.stage == ChapterStage::ChunkStopCheck
                    &&& r.0.chunk == state.chunk + 1 && r.0.chunk_count == state.chunk_count
                    &&& r.0.novel_context@ == state.novel_context@
                    &&& r.1 is CheckStop
                } else {
                    r.0.stage == ChapterStage::RelationshipPass && r.1 is CallRelationshipPass
                },
            }
        },
        ChapterStepEvent::ChunkLoaded { known_alias_context } => {
            &&& r.0.stage == ChapterStage::CandidatePass
            &&& r.0.chunk == state.chunk && r.0.chunk_count == state.chunk_count
            &&& r.0.novel_context@ == state.novel_context@
            &&& r.0.known_alias_context@ == known_alias_context@
            &&& r.1 matches ChapterStepAction::CallCandidatePass { prior_context } && prior_context@
                == state_base(state) + KNOWN_SURFACES_INTRO@ + known_alias_context@ + KNOWN_SURFACES_RULE@
        },
        ChapterStepEvent::CandidatesAnswered { candidate_context } => {
            &&& moved(r.0, state, ChapterStage::IdentityPass)
            &&& r.1 matches ChapterStepAction::CallIdentityPass { prior_context } && prior_context@
                == state_base(state) + KNOWN_SURFACES_INTRO@ + state.known_alias_context@
                + CANDIDATE_CHECKLIST_INTRO@ + candidate_context@ + CANDIDATE_CHECKLIST_RULE@
        },
        ChapterStepEvent::IdentitiesAnswered { error, quoted_alias_context } => match error {
            Some(m) => fails_with(
                r,
                CODE_IDENTITY_FAILED@,
                chunk_failure("identity"@, state.chunk as int, state.chunk_count as int, None, m@),
                CODE_IDENTITY_FAILED@,
            ),
            None => {
                &&& moved(r.0, state, ChapterStage::OwnershipPass)
                &&& r.1 matches ChapterStepAction::CallAliasOwnershipPass { prior_context } && prior_context@
                    == state_base(state) + OWNERSHIP_INTRO@ + quoted_alias_context@ + OWNERSHIP_RULE@
            },
        },
        ChapterStepEvent::OwnershipAnswered => moved(r.0, state, ChapterStage::Resolving)
            && r.1 is ResolveAndPersistIdentities,
        ChapterStepEvent::IdentitiesPersisted { identity_count } => {
            &&& r.0.chunk == state.chunk && r.0.chunk_count == state.chunk_count
            &&& r.0.novel_context@ == state.novel_context@
            &&& r.1 is CheckStop
            &&& if identity_count == 0 {
                r.0.stage == ChapterStage::ChunkEndStopCheck
            } else {
                r.0.stage == ChapterStage::IdentityStopCheck && r.0.identity == 0 && r.0.identity_count
                    == identity_count
            }
        },
        ChapterStepEvent::MentionsScanned { error, identity_name } => match error {
            Some(m) => fails_with(
                r,
                CODE_MENTIONS_FAILED@,
                chunk_failure(
                    "backend mention scan"@,
                    state.chunk as int,
                    state.chunk_count as int,
                    Some(identity_name@),
                    m@,
                ),
                CODE_MENTIONS_FAILED@,
            ),
            None => moved(r.0, state, ChapterStage::FieldContexts) && (r.1 matches ChapterStepAction::BuildFieldContexts { identity } && identity == state.identity),
        },
        ChapterStepEvent::FieldContextsBuilt { has_contexts } => if has_contexts {
            &&& moved(r.0, state, ChapterStage::FieldsPass)
            &&& r.1 matches ChapterStepAction::CallFieldsPass { identity, prior_context } && identity
                == state.identity && prior_context@ == state.novel_context@ + TARGET_CONTEXTS_INTRO@
                + chunk_position(state.chunk as int, state.chunk_count as int) + TARGET_CONTEXTS_RULES@
        } else {
            moved(r.0, state, ChapterStage::FieldVerification) && (r.1 matches ChapterStepAction::VerifyAndPersistFields { identity, answered } && identity == state.identity && !answered)
        },
        ChapterStepEvent::FieldsAnswered { error, identity_name } => match error {
            Some(m) => fails_with(
                r,
                CODE_FIELDS_FAILED@,
                chunk_failure("fields"@, state.chunk as int, state.chunk_count as int, Some(identity_name@), m@),
                CODE_FIELDS_FAILED@,
            ),
            None => moved(r.0, state, ChapterStage::FieldVerification) && (r.1 matches ChapterStepAction::VerifyAndPersistFields { identity, answered } && identity == state.identity && answered),
        },
        ChapterStepEvent::FieldsPersisted => {
            &&& r.0.chunk == state.chunk && r.0.chunk_count == state.chunk_count
            &&& r.0.novel_context@ == state.novel_context@
            &&& r.1 is CheckStop
            &&& if state.identity + 1 < state.identity_count {
                r.0.stage == ChapterStage::IdentityStopCheck && r.0.identity == state.identity + 1
                    && r.0.identity_count == state.identity_count
            } else {
                r.0.stage == ChapterStage::ChunkEndStopCheck
            }
        },
        ChapterStepEvent::RelationshipsAnswered { error } => match error {
            Some(m) => fails_with(
                r,
                CODE_RELATIONSHIP_FAILED@,
                "character relationship pass failed: "@ + m@,
                CODE_RELATIONSHIP_FAILED@,
            ),
            None => r.0.stage == ChapterStage::Validating && r.1 is Validate,
        },
        ChapterStepEvent::Validated { error } => match error {
            Some(m) => fails_with(
                r,
                CODE_VALIDATION_FAILED@,
                "character extraction merged result failed validation: "@ + m@,
                DETAIL_VALIDATION_FAILED@,
            ),
            None => r.0.stage == ChapterStage::Done && r.1 is Complete,
        },
    }
}

/// The project event published once a step's store write is done: after the
/// identities, the mentions or the fields of a chunk were stored.
pub open spec fn chapter_notice(event: ChapterStepEvent) -> Option<StepNotice> {
    match event {
        ChapterStepEvent::IdentitiesPersisted { .. } => Some(StepNotice::IdentityChunkPersisted),
        ChapterStepEvent::MentionsScanned { error: None, .. } => Some(StepNotice::MentionsChunkPersisted),
        ChapterStepEvent::FieldsPersisted => Some(StepNotice::FieldsChunkPersisted),
        _ => None,
    }
}

fn chapter_step_notice(event: &ChapterStepEvent) -> (r: Option<StepNotice>)
    ensures
        r == chapter_notice(*event),
{
    match event {
        ChapterStepEvent::IdentitiesPersisted { .. } => Some(StepNotice::IdentityChunkPersisted),
        ChapterStepEvent::MentionsScanned { error: None, .. } => Some(StepNotice::MentionsChunkPersisted),
        ChapterStepEvent::FieldsPersisted => Some(StepNotice::FieldsChunkPersisted),
        _ => None,
    }
}

/// The local analysis of a chapter, one decision at a time: from the state and
/// what came of the last action to the next state, the next action, and the
/// project event to publish, if any.
pub fn analysis_chapter_transition(state: ChapterStepState, event: ChapterStepEvent) -> (r: (
    ChapterStepState,
    ChapterStepAction,
    Option<StepNotice>,
))
    requires
        chapter_state_wf(state),
        chapter_event_fits(state.stage, event),
    ensures
        chapter_step(state, event, (r.0, r.1)),
        r.2 == chapter_notice(event),
{
    let notice = chapter_step_notice(&event);
    let (next, action) = next_chapter_step(state, event);
    (next, action, notice)
}

#[verifier::rlimit(60)]
fn next_chapter_step(state: ChapterStepState, event: ChapterStepEvent) -> (r: (
    ChapterStepState,
    ChapterStepAction,
))
    requires
        chapter_state_wf(state),
        chapter_event_fits(state.stage, event),
    ensures
        chapter_step(state, event, r),
{
    match event {
        ChapterStepEvent::Begun { chunk_count, novel_context } => {
            if chunk_count == 0 {
                (move_to(state, ChapterStage::RelationshipPass), ChapterStepAction::CallRelationshipPass)
            } else {
                (
                    ChapterStepState {
                        stage: ChapterStage::ChunkStopCheck,
                        chunk: 0,
                        chunk_count,
                        identity: 0,
                        identity_count: 0,
                        novel_context,
                        known_alias_context: String::new(),
                    },
                    ChapterStepAction::CheckStop,
                )
            }
        },
        ChapterStepEvent::StopChecked { stop } => {
            if stop {
                return (done(), ChapterStepAction::ReturnSnapshot);
            }
            match state.stage {
                ChapterStage::ChunkStopCheck => {
                    let chunk = state.chunk;
                    (move_to(state, ChapterStage::LoadingChunk), ChapterStepAction::LoadChunk { chunk })
                },
                ChapterStage::IdentityStopCheck => {
                    let identity = state.identity;
                    (move_to(state, ChapterStage::MentionScan), ChapterStepAction::ScanMentions { identity })
                },
                _ => {
                    if state.chunk + 1 < state.chunk_count {
                        let next = state.chunk + 1;
                        (
                            ChapterStepState { stage: ChapterStage::ChunkStopCheck, chunk: next, ..state },
                            ChapterStepAction::CheckStop,
                        )
                    } else {
                        (move_to(state, ChapterStage::RelationshipPass), ChapterStepAction::CallRelationshipPass)
                    }
                },
            }
        },
        ChapterStepEvent::ChunkLoaded { known_alias_context } => {
            let base = build_chunk_base_context(state.novel_context.as_str(), state.chunk, state.chunk_count);
            let prior_context = build_candidate_pass_context(base.as_str(), known_alias_context.as_str());
            (
                ChapterStepState { stage: ChapterStage::CandidatePass, known_alias_context, ..state },
                ChapterStepAction::CallCandidatePass { prior_context },
            )
        },
        ChapterStepEvent::CandidatesAnswered { candidate_context } => {
            let base = build_chunk_base_context(state.novel_context.as_str(), state.chunk, state.chunk_count);
            let prior_context = build_identity_pass_context(
                base.as_str(),
                state.known_alias_context.as_str(),
                candidate_context.as_str(),
            );
            (move_to(state, ChapterStage::IdentityPass), ChapterStepAction::CallIdentityPass { prior_context })
        },
        ChapterStepEvent::IdentitiesAnswered { error, quoted_alias_context } => match error {
            Some(m) => {
                let reason = chunk_failure_reason("identity", state.chunk, state.chunk_count, None, m.as_str());
                fail(CODE_IDENTITY_FAILED, reason, CODE_IDENTITY_FAILED)
            },
            None => {
                let base = build_chunk_base_context(state.novel_context.as_str(), state.chunk, state.chunk_count);
                let prior_context = build_alias_ownership_context(base.as_str(), quoted_alias_context.as_str());
                (
                    move_to(state, ChapterStage::OwnershipPass),
                    ChapterStepAction::CallAliasOwnershipPass { prior_context },
                )
            },
        },
        ChapterStepEvent::OwnershipAnswered => (
            move_to(state, ChapterStage::Resolving),
            ChapterStepAction::ResolveAndPersistIdentities,
        ),
        ChapterStepEvent::IdentitiesPersisted { identity_count } => {
            if identity_count == 0 {
                (move_to(state, ChapterStage::ChunkEndStopCheck), ChapterStepAction::CheckStop)
            } else {
                (
                    ChapterStepState { stage: ChapterStage::IdentityStopCheck, identity: 0, identity_count, ..state },
                    ChapterStepAction::CheckStop,
                )
            }
        },
        ChapterStepEvent::MentionsScanned { error, identity_name } => match error {
            Some(m) => {
                let reason = chunk_failure_reason(
                    "backend mention scan",
                    state.chunk,
                    state.chunk_count,
                    Some(identity_name.as_str()),
                    m.as_str(),
                );
                fail(CODE_MENTIONS_FAILED, reason, CODE_MENTIONS_FAILED)
            },
            None => {
                let identity = state.identity;
                (move_to(state, ChapterStage::FieldContexts), ChapterStepAction::BuildFieldContexts { identity })
            },
        },
        ChapterStepEvent::FieldContextsBuilt { has_contexts } => {
            let identity = state.identity;
            if has_contexts {
                let prior_context = build_target_contexts_context(
                    state.novel_context.as_str(),
                    state.chunk,
                    state.chunk_count,
                );
                (move_to(state, ChapterStage::FieldsPass), ChapterStepAction::CallFieldsPass { identity, prior_context })
            } else {
                (
                    move_to(state, ChapterStage::FieldVerification),
                    ChapterStepAction::VerifyAndPersistFields { identity, answered: false },
                )
            }
        },
        ChapterStepEvent::FieldsAnswered { error, identity_name } => match error {
            Some(m) => {
                let reason = chunk_failure_reason(
                    "fields",
                    state.chunk,
                    state.chunk_count,
                    Some(identity_name.as_str()),
                    m.as_str(),
                );
                fail(CODE_FIELDS_FAILED, reason, CODE_FIELDS_FAILED)
            },
            None => {
                let identity = state.identity;
                (
                    move_to(state, ChapterStage::FieldVerification),
                    ChapterStepAction::VerifyAndPersistFields { identity, answered: true },
                )
            },
        },
        ChapterStepEvent::FieldsPersisted => {
            if state.identity + 1 < state.identity_count {
                let next = state.identity + 1;
                (
                    ChapterStepState { stage: ChapterStage::IdentityStopCheck, identity: next, ..state },
                    ChapterStepAction::CheckStop,
                )
            } else {
                (move_to(state, ChapterStage::ChunkEndStopCheck), ChapterStepAction::CheckStop)
            }
        },
        ChapterStepEvent::RelationshipsAnswered { error } => match error {
            Some(m) => fail(CODE_RELATIONSHIP_FAILED, relationship_pass_failure_reason(m.as_str()), CODE_RELATIONSHIP_FAILED),
            None => (move_to(state, ChapterStage::Validating), ChapterStepAction::Validate),
        },
        ChapterStepEvent::Validated { error } => match error {
            Some(m) => fail(CODE_VALIDATION_FAILED, merged_validation_failure_reason(m.as_str()), DETAIL_VALIDATION_FAILED),
            None => (done(), ChapterStepAction::Complete),
        },
    }
}

} // verus!
