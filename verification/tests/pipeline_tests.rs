use novelgraph::analysis_step::StepNotice;
use novelgraph::chapter_pipeline::{
    analysis_chapter_transition, start_chapter_analysis, ChapterStage, ChapterStepAction, ChapterStepEvent,
    ChapterStepState,
};
use novelgraph::characters::{CharacterAlias, CharacterIdentity};
use novelgraph::domain::{Chapter, StoryCharacterMention, StoryEvidenceSpan};
use novelgraph::records::{
    StoryExtractionDocument, StoryExtractionFieldPayload, StoryExtractionFieldValuePayload,
    StoryExtractionRecordPayload,
};
use novelgraph::relationship_candidates::{
    character_identities_for_relationships, relationship_pass_transition, resolve_character_relationship_candidates,
    start_relationship_pass, RelationshipStage, RelationshipStepAction, RelationshipStepEvent,
};
use novelgraph::relationship_pass::CharacterRelationshipCandidate;

fn step(state: ChapterStepState, event: ChapterStepEvent) -> (ChapterStepState, ChapterStepAction) {
    let (s, a, _) = analysis_chapter_transition(state, event);
    (s, a)
}

fn stop(stop: bool) -> ChapterStepEvent {
    ChapterStepEvent::StopChecked { stop }
}

#[test]
fn chapter_runs_chunk_passes_then_relationships_and_validation() {
    let (s, a) = step(start_chapter_analysis(), ChapterStepEvent::Begun { chunk_count: 2, novel_context: "N".to_string() });
    assert_eq!(s.stage, ChapterStage::ChunkStopCheck);
    assert!(matches!(a, ChapterStepAction::CheckStop));
    let (s, a) = step(s, stop(false));
    assert!(matches!(a, ChapterStepAction::LoadChunk { chunk: 0 }));
    let (s, a) = step(s, ChapterStepEvent::ChunkLoaded { known_alias_context: "[k]".to_string() });
    match &a {
        ChapterStepAction::CallCandidatePass { prior_context } => {
            assert!(prior_context.starts_with("N\n\nĐây là đoạn nhỏ 1/2 của chương hiện tại."));
            assert!(prior_context.contains("previous chapters:\n[k]\n\nNếu một known surface"));
        }
        _ => panic!("expected the candidate pass"),
    }
    let (s, a) = step(s, ChapterStepEvent::CandidatesAnswered { candidate_context: "[c]".to_string() });
    match &a {
        ChapterStepAction::CallIdentityPass { prior_context } => {
            assert!(prior_context.contains("[k]\n\nCandidate coverage checklist từ pass quét nhanh trước identity:\n[c]"))
        }
        _ => panic!("expected the identity pass"),
    }
    let (s, a) = step(s, ChapterStepEvent::IdentitiesAnswered { error: None, quoted_alias_context: "[q]".to_string() });
    assert!(matches!(a, ChapterStepAction::CallAliasOwnershipPass { .. }));
    let (s, a) = step(s, ChapterStepEvent::OwnershipAnswered);
    assert!(matches!(a, ChapterStepAction::ResolveAndPersistIdentities));
    let (s, a) = step(s, ChapterStepEvent::IdentitiesPersisted { identity_count: 1 });
    assert!(matches!(a, ChapterStepAction::CheckStop));
    let (s, a) = step(s, stop(false));
    assert!(matches!(a, ChapterStepAction::ScanMentions { identity: 0 }));
    let (s, a) = step(s, ChapterStepEvent::MentionsScanned { error: None, identity_name: "Hàn Lập".to_string() });
    assert!(matches!(a, ChapterStepAction::BuildFieldContexts { identity: 0 }));
    let (s, a) = step(s, ChapterStepEvent::FieldContextsBuilt { has_contexts: true });
    match &a {
        ChapterStepAction::CallFieldsPass { identity: 0, prior_context } => {
            assert!(prior_context.starts_with("N\n\nĐây là TARGET_CONTEXTS đã được backend chọn từ đoạn nhỏ 1/2"))
        }
        _ => panic!("expected the fields pass"),
    }
    let (s, a) = step(s, ChapterStepEvent::FieldsAnswered { error: None, identity_name: "Hàn Lập".to_string() });
    assert!(matches!(a, ChapterStepAction::VerifyAndPersistFields { identity: 0, answered: true }));
    let (s, a) = step(s, ChapterStepEvent::FieldsPersisted);
    assert_eq!(s.stage, ChapterStage::ChunkEndStopCheck);
    assert!(matches!(a, ChapterStepAction::CheckStop));
    let (s, _) = step(s, stop(false));
    assert_eq!((s.stage, s.chunk), (ChapterStage::ChunkStopCheck, 1));
    let (s, _) = step(s, stop(false));
    let (s, _) = step(s, ChapterStepEvent::ChunkLoaded { known_alias_context: "[]".to_string() });
    let (s, _) = step(s, ChapterStepEvent::CandidatesAnswered { candidate_context: "[]".to_string() });
    let (s, _) = step(s, ChapterStepEvent::IdentitiesAnswered { error: None, quoted_alias_context: "[]".to_string() });
    let (s, _) = step(s, ChapterStepEvent::OwnershipAnswered);
    let (s, _) = step(s, ChapterStepEvent::IdentitiesPersisted { identity_count: 0 });
    let (s, a) = step(s, stop(false));
    assert_eq!(s.stage, ChapterStage::RelationshipPass);
    assert!(matches!(a, ChapterStepAction::CallRelationshipPass));
    let (s, a) = step(s, ChapterStepEvent::RelationshipsAnswered { error: None });
    assert!(matches!(a, ChapterStepAction::Validate));
    let (s, a) = step(s, ChapterStepEvent::Validated { error: None });
    assert_eq!(s.stage, ChapterStage::Done);
    assert!(matches!(a, ChapterStepAction::Complete));
}

#[test]
fn chapter_pauses_on_a_failed_pass_or_a_stop() {
    let (s, _) = step(start_chapter_analysis(), ChapterStepEvent::Begun { chunk_count: 3, novel_context: "N".to_string() });
    let (_, a) = step(s.clone(), stop(true));
    assert!(matches!(a, ChapterStepAction::ReturnSnapshot));
    let (s, _) = step(s, stop(false));
    let (s, _) = step(s, ChapterStepEvent::ChunkLoaded { known_alias_context: "[]".to_string() });
    let (s, _) = step(s, ChapterStepEvent::CandidatesAnswered { candidate_context: "[]".to_string() });
    let (_, a) = step(s.clone(), ChapterStepEvent::IdentitiesAnswered { error: Some("boom".to_string()), quoted_alias_context: String::new() });
    match a {
        ChapterStepAction::FailAndPause { code, reason, detail } => {
            assert_eq!(code, "character_identity_pass_failed");
            assert_eq!(reason, "character identity chunk 1/3 failed: boom");
            assert_eq!(detail, "character_identity_pass_failed");
        }
        _ => panic!("expected a pause"),
    }
    let (s, _) = step(s, ChapterStepEvent::IdentitiesAnswered { error: None, quoted_alias_context: "[]".to_string() });
    let (s, _) = step(s, ChapterStepEvent::OwnershipAnswered);
    let (s, _) = step(s, ChapterStepEvent::IdentitiesPersisted { identity_count: 2 });
    let (s, _) = step(s, stop(false));
    let (_, a) = step(s.clone(), ChapterStepEvent::MentionsScanned { error: Some("x".to_string()), identity_name: "Hàn Lập".to_string() });
    match a {
        ChapterStepAction::FailAndPause { code, reason, .. } => {
            assert_eq!(code, "character_mentions_backend_scan_failed");
            assert_eq!(reason, "character backend mention scan chunk 1/3 for Hàn Lập failed: x");
        }
        _ => panic!("expected a pause"),
    }
    let (s, _) = step(s, ChapterStepEvent::MentionsScanned { error: None, identity_name: "Hàn Lập".to_string() });
    let (s, a) = step(s, ChapterStepEvent::FieldContextsBuilt { has_contexts: false });
    assert!(matches!(a, ChapterStepAction::VerifyAndPersistFields { identity: 0, answered: false }));
    let (s, _) = step(s, ChapterStepEvent::FieldsPersisted);
    assert_eq!((s.stage, s.identity), (ChapterStage::IdentityStopCheck, 1));
    let (_, a) = step(s, stop(true));
    assert!(matches!(a, ChapterStepAction::ReturnSnapshot));

    let relationship = ChapterStepState { stage: ChapterStage::RelationshipPass, ..start_chapter_analysis() };
    let (_, a) = step(relationship, ChapterStepEvent::RelationshipsAnswered { error: Some("r".to_string()) });
    assert!(matches!(a, ChapterStepAction::FailAndPause { code: "character_relationship_pass_failed", ref reason, .. } if reason == "character relationship pass failed: r"));
    let validating = ChapterStepState { stage: ChapterStage::Validating, ..start_chapter_analysis() };
    let (_, a) = step(validating, ChapterStepEvent::Validated { error: Some("v".to_string()) });
    match a {
        ChapterStepAction::FailAndPause { code, reason, detail } => {
            assert_eq!(code, "character_extraction_validation_failed");
            assert_eq!(reason, "character extraction merged result failed validation: v");
            assert_eq!(detail, "character extraction validation failed");
        }
        _ => panic!("expected a pause"),
    }
    let (s, a) = step(start_chapter_analysis(), ChapterStepEvent::Begun { chunk_count: 0, novel_context: String::new() });
    assert_eq!(s.stage, ChapterStage::RelationshipPass);
    assert!(matches!(a, ChapterStepAction::CallRelationshipPass));
}

fn mention() -> StoryCharacterMention {
    StoryCharacterMention { text: "x".to_string(), start_char: 0, end_char: 1, mention_type: None }
}

fn record(name: &str, entity_key: Option<&str>, aliases: &[&str], with_mention: bool) -> StoryExtractionRecordPayload {
    let values = aliases
        .iter()
        .map(|a| StoryExtractionFieldValuePayload {
            value: a.to_string(),
            related_character: None,
            relationship_type: None,
            relationship_label: None,
            relationship_direction: None,
            evidence: Vec::new(),
        })
        .collect::<Vec<_>>();
    StoryExtractionRecordPayload {
        group_key: "character".to_string(),
        group_label: "Nhân Vật".to_string(),
        entity_key: entity_key.map(str::to_string),
        display_name: name.to_string(),
        mentions: if with_mention { vec![mention()] } else { Vec::new() },
        fields: vec![StoryExtractionFieldPayload {
            field_key: "other_alias".to_string(),
            field_label: String::new(),
            values,
        }],
    }
}

#[test]
fn relationship_identities_come_once_per_key() {
    let document = StoryExtractionDocument {
        schema_version: "v".to_string(),
        chapter_num: 1,
        records: vec![
            record("Hàn Lập", Some("han_lap"), &["Lập ca", "Hàn huynh"], true),
            record("Hàn lập", Some(" "), &[], true),
            record("Tam Thúc", None, &[], false),
            record("Nam Cung Uyển", None, &[], true),
        ],
    };
    let ids = character_identities_for_relationships(&document, &vec![vec![false, true]]);
    let names: Vec<&str> = ids.iter().map(|i| i.name.as_str()).collect();
    assert_eq!(names, vec!["Hàn Lập", "Nam Cung Uyển"]);
    let aliases: Vec<(&str, bool)> = ids[0].aliases.iter().map(|a| (a.text.as_str(), a.is_primary)).collect();
    assert_eq!(aliases, vec![("Lập ca", false), ("Hàn huynh", true)]);
    assert_eq!(ids[0].aliases[0].alias_type, "other_alias");
    assert!(ids[1].aliases.is_empty());
}

fn span(quote: &str) -> StoryEvidenceSpan {
    StoryEvidenceSpan { chapter_num: 1, start_char: None, end_char: None, quote: Some(quote.to_string()), reason: None }
}

fn candidate(source: &str, target: &str, kind: &str, quote: &str) -> CharacterRelationshipCandidate {
    CharacterRelationshipCandidate {
        source_name: source.to_string(),
        target_name: target.to_string(),
        relationship_kind: kind.to_string(),
        relationship_type: "kinship".to_string(),
        source_to_target_label: "cháu".to_string(),
        target_to_source_label: "chú".to_string(),
        evidence: vec![span(quote)],
    }
}

fn identity(name: &str) -> CharacterIdentity {
    CharacterIdentity { name: name.to_string(), aliases: Vec::<CharacterAlias>::new() }
}

#[test]
fn candidates_resolve_to_pairs_with_warnings() {
    let chapter = Chapter {
        id: "c".to_string(),
        novel_id: "n".to_string(),
        chapter_num: 1,
        title: String::new(),
        content: "Hàn Lập gọi Tam Thúc là chú.".to_string(),
        created_at: String::new(),
        updated_at: String::new(),
    };
    let identities = vec![identity("Tam Thúc"), identity("Hàn Lập")];
    let candidates = vec![
        candidate("Hàn Lập", "Tam Thúc", "relation", "gọi Tam Thúc"),
        candidate("Hàn Lập", "Tam Thúc", "event", "gọi Tam Thúc"),
        candidate("Hàn Lập", "Tam Thúc", "relation", "gọi Tam Thúc"),
        candidate("Nobody", "Tam Thúc", "relation", "gọi Tam Thúc"),
        candidate("Hàn Lập", "Hàn Lập", "relation", "gọi Tam Thúc"),
        candidate("Tam Thúc", "Hàn Lập", "relation", "not there"),
        candidate("Tam Thúc", "Hàn Lập", "relation", "Hàn Lập gọi"),
    ];
    let confident = vec![true, true, false, true, true, true, true];
    let (pairs, warnings) = resolve_character_relationship_candidates(candidates, &confident, &identities, &chapter);
    assert_eq!(pairs.len(), 1);
    assert_eq!(pairs[0].0, (0, 1));
    assert_eq!(pairs[0].1.len(), 2);
    assert_eq!(pairs[0].1[0].a_to_b_label, "chú");
    assert_eq!(pairs[0].1[1].a_to_b_label, "cháu");
    let codes: Vec<&str> = warnings.iter().map(|w| w.code).collect();
    assert_eq!(
        codes,
        vec![
            "relationship_candidate_not_stable",
            "relationship_candidate_low_confidence",
            "relationship_source_not_resolved",
            "relationship_self_reference_skipped",
            "relationship_candidate_not_grounded",
        ]
    );
    assert_eq!(warnings[0].relationship_kind, Some("event"));
}

#[test]
fn relationship_pass_goes_pair_by_pair() {
    let (s, a, _) = relationship_pass_transition(start_relationship_pass(), RelationshipStepEvent::Begun { identity_count: 1, novel_context: String::new() });
    assert_eq!(s.stage, RelationshipStage::Done);
    assert!(matches!(a, RelationshipStepAction::FinishWithoutPass));
    let (s, a, _) = relationship_pass_transition(start_relationship_pass(), RelationshipStepEvent::Begun { identity_count: 2, novel_context: "N".to_string() });
    match &a {
        RelationshipStepAction::CallCandidatePass { prior_context } => {
            assert!(prior_context.starts_with("N\n\nĐây là relationship candidate pass sau khi"))
        }
        _ => panic!("expected the candidate pass"),
    }
    let (_, a, _) = relationship_pass_transition(s, RelationshipStepEvent::CandidatesAnswered { error: Some("e".to_string()), pair_count: 0 });
    assert!(matches!(a, RelationshipStepAction::Finish { candidate_pass_error: Some(ref e) } if e == "e"));
    let (s, a, _) = relationship_pass_transition(s, RelationshipStepEvent::CandidatesAnswered { error: None, pair_count: 2 });
    assert!(matches!(a, RelationshipStepAction::VerifyPair { pair: 0 }));
    let (s, a, _) = relationship_pass_transition(s, RelationshipStepEvent::PairVerified { record_added: true });
    assert!(matches!(a, RelationshipStepAction::VerifyPair { pair: 1 }));
    let (s, a, _) = relationship_pass_transition(s, RelationshipStepEvent::PairVerified { record_added: false });
    assert_eq!((s.stage, s.records_added), (RelationshipStage::Persisting, 1));
    assert!(matches!(a, RelationshipStepAction::PersistDocument));
    let (s, a, n) = relationship_pass_transition(s, RelationshipStepEvent::DocumentPersisted);
    assert_eq!(n, Some(StepNotice::RelationshipCandidatesPersisted));
    assert_eq!(StepNotice::RelationshipCandidatesPersisted.event_type(), "story_extraction_updated");
    assert_eq!(StepNotice::RelationshipCandidatesPersisted.detail(), "character relationship candidates persisted");
    assert_eq!(s.stage, RelationshipStage::Done);
    assert!(matches!(a, RelationshipStepAction::Finish { candidate_pass_error: None }));
}

#[test]
fn chapter_publishes_a_notice_after_each_store_write() {
    let (s, _, n) = analysis_chapter_transition(
        start_chapter_analysis(),
        ChapterStepEvent::Begun { chunk_count: 1, novel_context: "N".to_string() },
    );
    assert_eq!(n, None);
    let (s, _, _) = analysis_chapter_transition(s, stop(false));
    let (s, _, _) = analysis_chapter_transition(s, ChapterStepEvent::ChunkLoaded { known_alias_context: "[]".to_string() });
    let (s, _, _) = analysis_chapter_transition(s, ChapterStepEvent::CandidatesAnswered { candidate_context: "[]".to_string() });
    let (s, _, _) = analysis_chapter_transition(s, ChapterStepEvent::IdentitiesAnswered { error: None, quoted_alias_context: "[]".to_string() });
    let (s, _, n) = analysis_chapter_transition(s, ChapterStepEvent::OwnershipAnswered);
    assert_eq!(n, None);
    let (s, _, n) = analysis_chapter_transition(s, ChapterStepEvent::IdentitiesPersisted { identity_count: 1 });
    assert_eq!(n, Some(StepNotice::IdentityChunkPersisted));
    assert_eq!(StepNotice::IdentityChunkPersisted.event_type(), "story_extraction_updated");
    assert_eq!(StepNotice::IdentityChunkPersisted.detail(), "character identity chunk persisted");
    let (s, _, _) = analysis_chapter_transition(s, stop(false));
    let (_, _, failed) = analysis_chapter_transition(
        s.clone(),
        ChapterStepEvent::MentionsScanned { error: Some("x".to_string()), identity_name: "A".to_string() },
    );
    assert_eq!(failed, None);
    let (s, _, n) = analysis_chapter_transition(s, ChapterStepEvent::MentionsScanned { error: None, identity_name: "A".to_string() });
    assert_eq!(n, Some(StepNotice::MentionsChunkPersisted));
    assert_eq!(StepNotice::MentionsChunkPersisted.detail(), "character mentions chunk persisted");
    let (s, _, _) = analysis_chapter_transition(s, ChapterStepEvent::FieldContextsBuilt { has_contexts: false });
    let (_, _, n) = analysis_chapter_transition(s, ChapterStepEvent::FieldsPersisted);
    assert_eq!(n, Some(StepNotice::FieldsChunkPersisted));
    assert_eq!(StepNotice::FieldsChunkPersisted.event_type(), "story_extraction_updated");
    assert_eq!(StepNotice::FieldsChunkPersisted.detail(), "character fields chunk persisted");
}
